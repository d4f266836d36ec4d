//! Register layout of the controller and the run-time state of its queues.
use vstd::prelude::*;

pub mod cap;
pub mod cc;
pub mod cmbloc;
pub mod cmbmsc;
pub mod cmbsts;
pub mod cmbsz;
pub mod csts;

verus! {

/// BAR0 holds the controller registers, the doorbells from 0x1000, the MSI-X
/// table from 0x2000 and the MSI-X pending bits from 0x3000.
pub const BAR0_SIZE: u64 = 0x4000;

pub const DOORBELL_BAR0_OFFSET: u64 = 0x1000;

pub const MSIX_TABLE_BAR0_OFFSET: u64 = 0x2000;

pub const MSIX_PBA_BAR0_OFFSET: u64 = 0x3000;

/// PCI capability identifier of MSI-X.
pub const MSIX_CAP_ID: u8 = 0x11;

pub const NVME_PAGE_SHIFT: u32 = 12;

pub const NVME_PAGE_SIZE: u64 = 4096;

/// A command transfers at most 2^5 pages.
pub const MDTS_PAGES_LOG2: u8 = 5;

pub const MDTS_MAX_BYTES: u64 = 0x2_0000;

pub const SQE_BYTES: u64 = 64;

pub const CQE_BYTES: u64 = 16;

/// VS value of version 1.4.
pub const VS_NVME_1_4: u32 = 0x0001_0400;

/// The controller registers in BAR0.
#[derive(Debug, Clone, Copy, PartialEq, Eq, Structural)]
pub enum Reg {
    Cap,
    Vs,
    Intms,
    Intmc,
    Cc,
    Csts,
    Aqa,
    Asq,
    Acq,
    /// Controller memory buffer location; 0 = no buffer.
    Cmbloc,
    /// Controller memory buffer size; 0 = no buffer.
    Cmbsz,
    Cmbmsc,
    Cmbsts,
    /// Boot partition information.
    Bpinfo,
    /// Boot partition read select.
    Bprsel,
    /// Boot partition memory buffer location.
    Bpmbl,
    /// Persistent memory region capabilities; 0 = no region.
    Pmrcap,
    Pmrctl,
    Pmrsts,
}

impl Reg {
    /// Byte offset of the register in BAR0.
    pub open spec fn spec_offset(self) -> u64 {
        match self {
            Reg::Cap => 0x00,
            Reg::Vs => 0x08,
            Reg::Intms => 0x0c,
            Reg::Intmc => 0x10,
            Reg::Cc => 0x14,
            Reg::Csts => 0x1c,
            Reg::Aqa => 0x24,
            Reg::Asq => 0x28,
            Reg::Acq => 0x30,
            Reg::Cmbloc => 0x38,
            Reg::Cmbsz => 0x3c,
            Reg::Bpinfo => 0x40,
            Reg::Bprsel => 0x44,
            Reg::Bpmbl => 0x48,
            Reg::Cmbmsc => 0x50,
            Reg::Cmbsts => 0x58,
            Reg::Pmrcap => 0xe00,
            Reg::Pmrctl => 0xe04,
            Reg::Pmrsts => 0xe08,
        }
    }

    /// Byte offset of the register in BAR0.
    pub fn offset(self) -> (r: u64)
        ensures
            r == self.spec_offset(),
    {
        match self {
            Reg::Cap => 0x00,
            Reg::Vs => 0x08,
            Reg::Intms => 0x0c,
            Reg::Intmc => 0x10,
            Reg::Cc => 0x14,
            Reg::Csts => 0x1c,
            Reg::Aqa => 0x24,
            Reg::Asq => 0x28,
            Reg::Acq => 0x30,
            Reg::Cmbloc => 0x38,
            Reg::Cmbsz => 0x3c,
            Reg::Bpinfo => 0x40,
            Reg::Bprsel => 0x44,
            Reg::Bpmbl => 0x48,
            Reg::Cmbmsc => 0x50,
            Reg::Cmbsts => 0x58,
            Reg::Pmrcap => 0xe00,
            Reg::Pmrctl => 0xe04,
            Reg::Pmrsts => 0xe08,
        }
    }
}

/// No two registers share an offset, and none reaches the doorbells.
pub proof fn law_register_offsets_distinct(a: Reg, b: Reg)
    ensures
        a.spec_offset() == b.spec_offset() ==> a == b,
        a.spec_offset() < DOORBELL_BAR0_OFFSET,
{
}

/// CAP for queues of at most `max_qe` entries: MQES = `max_qe - 1` in bits 15:0,
/// CQR in bit 16, a timeout of 10 in bits 31:24, the NVM command set in bit 37 and,
/// where a controller memory buffer is supported, CMBS in bit 57.
pub open spec fn cap_value(max_qe: int, cmb_supported: bool) -> int {
    (max_qe - 1) + 0x1_0000 + 10 * 0x100_0000 + 0x20_0000_0000 + (if cmb_supported {
        0x0200_0000_0000_0000
    } else {
        0int
    })
}

/// The value of the CAP register; see `cap_value`.
pub fn build_cap(max_qe: u32, cmb_supported: bool) -> (r: u64)
    requires
        1 <= max_qe <= 65536,
    ensures
        r == cap_value(max_qe as int, cmb_supported),
{
    let mqes_minus_1: u64 = (max_qe - 1) as u64;
    let cmbs: u64 = if cmb_supported {
        cap::CMBS
    } else {
        0
    };
    assert(mqes_minus_1 <= 0xffff && (cmbs == 0 || cmbs == 0x0200_0000_0000_0000) ==> (mqes_minus_1
        | (1u64 << 16) | (10u64 << 24) | (1u64 << 37) | cmbs) == mqes_minus_1 + 0x1_0000 + 10
        * 0x100_0000 + 0x20_0000_0000 + cmbs) by (bit_vector);
    mqes_minus_1 | (1u64 << 16) | (10u64 << 24) | (1u64 << 37) | cmbs
}

/// MQES reads back as the queue depth less one, CMBS tells whether a controller
/// memory buffer is supported, and nothing else depends on that.
pub proof fn law_cap_fields(max_qe: u32, cmb_supported: bool, r: u64)
    requires
        1 <= max_qe <= 65536,
        r == cap_value(max_qe as int, cmb_supported),
    ensures
        r & 0xffff == max_qe - 1,
        (r & cap::CMBS != 0) == cmb_supported,
        r & !cap::CMBS == cap_value(max_qe as int, false),
{
    let m = (max_qe - 1) as u64;
    let base = (m + 0x1_0000 + 10 * 0x100_0000 + 0x20_0000_0000) as u64;
    assert(m <= 0xffff && base == m + 0x1_0000 + 10 * 0x100_0000 + 0x20_0000_0000 ==> base & 0xffff
        == m && base & 0x0200_0000_0000_0000 == 0 && base & !0x0200_0000_0000_0000u64 == base && (
    base + 0x0200_0000_0000_0000) as u64 & 0xffff == m && (base + 0x0200_0000_0000_0000) as u64
        & 0x0200_0000_0000_0000 != 0 && (base + 0x0200_0000_0000_0000) as u64
        & !0x0200_0000_0000_0000u64 == base) by (bit_vector);
}

/// Whether the controller accepts commands.
#[derive(Debug, Clone, Copy, PartialEq, Eq, Structural)]
pub enum CtrlState {
    /// CC.EN is clear: nothing is accepted.
    Disabled,
    /// CC.EN was set: the admin queue is up.
    Ready,
}

/// Run-time state of a submission queue.
#[derive(Debug, Clone, Copy, PartialEq, Eq, Structural)]
pub struct SubmissionQueue {
    /// Guest physical address of the first entry.
    pub base_gpa: u64,
    /// Number of entries.
    pub size: u32,
    /// Next entry to be fetched.
    pub head: u32,
    /// The tail up to which fetches were issued.
    pub tail: u32,
    /// The completion queue that its completions go to.
    pub cq_id: u16,
}

/// Run-time state of a completion queue.
#[derive(Debug, Clone, Copy, PartialEq, Eq, Structural)]
pub struct CompletionQueue {
    /// Guest physical address of the first entry.
    pub base_gpa: u64,
    /// Number of entries.
    pub size: u32,
    /// The slot that the next completion goes to.
    pub tail: u32,
    /// The phase tag of the current pass over the queue.
    pub phase: u8,
    /// The head that the host reported last.
    pub head: u32,
    /// MSI-X vector.
    pub interrupt_vector: u16,
    pub interrupt_enabled: bool,
    /// Completions posted since the host was last interrupted.
    pub pending_completions: u32,
    /// When the host was last interrupted, or when the first completion that still
    /// waits for an interrupt was posted; in nanoseconds.
    pub last_fire: Option<u64>,
}

} // verus!
