//! Decisions made at the start, and the register layout.
use vstd::arithmetic::power2::pow2;
use vstd::prelude::*;

use crate::regs;
use crate::regs::{cc, cmbloc, cmbsz, csts};
use crate::regs::Reg;
use crate::startup;
use crate::startup::{CmbAction, CmbError, CmbMode, CmbNegotiation, TransportKind};

verus! {

/// A buffer that is not to be mapped is provided as it was asked for, without a word. One
/// that is to be mapped is mapped where the client can; over TCP there is none, and over a
/// virtual machine socket its accesses are forwarded, and the user hears of either.
pub proof fn law_buffer_mode(requested: CmbMode, transport: TransportKind, r: CmbNegotiation)
    requires
        call_ensures(startup::negotiate_cmb_mode, (requested, transport), r),
    ensures
        !(requested is Mapped) || transport is VfioUser ==> r.effective == requested
            && r.warning is None,
        requested is Mapped && transport is Tcp ==> r.effective is Off && r.warning is Some
            && (r.warning->0)@ == "map CMB 需 vfio-user transport：TCP 无 PCIe BAR，CMB 不适用（设计 §6）→ 关闭 CMB（off）"@,
        requested is Mapped && transport is Vsock ==> r.effective is Trap && r.warning is Some
            && (r.warning->0)@ == "map CMB 需 client 能 mmap region fd：OpenHCL VTL2 underhill 无 MemoryMapper（设计 §5）→ 降级 trap-based CMB（功能正确，非零拷贝）"@,
{
}

/// A buffer goes into BAR 2 and no other, with the size that was asked for: with memory of
/// the controller's own where accesses are forwarded, and with memory that the client maps
/// where it can. A transport that cannot map refuses to.
pub proof fn law_buffer_is_set_up(
    mode: CmbMode,
    size: u64,
    bir: u8,
    valid: Result<(), CmbError>,
    plain: Result<CmbAction, CmbError>,
    vfio: Result<CmbAction, CmbError>,
)
    requires
        call_ensures(startup::validate_cmb_bir, (bir,), valid),
        call_ensures(startup::apply_cmb_trap_or_off, (mode, size, bir), plain),
        call_ensures(startup::apply_cmb_vfio_user, (mode, size, bir), vfio),
    ensures
        valid is Ok <==> bir == 2,
        valid is Err ==> valid->Err_0 == (CmbError::UnsupportedBir { bir }),
        mode is Off ==> plain is Ok && plain->Ok_0 is Nothing && vfio is Ok && vfio->Ok_0 is Nothing,
        mode is Trap ==> vfio == plain,
        mode is Trap && bir == 2 ==> plain is Ok && plain->Ok_0 == (CmbAction::EnableInternal {
            size,
            bir: 2,
        }),
        mode is Trap && bir != 2 ==> plain is Err && plain->Err_0 == (CmbError::UnsupportedBir {
            bir,
        }),
        mode is Mapped ==> plain is Err && plain->Err_0 is MapUnavailable,
        mode is Mapped && bir == 2 ==> vfio is Ok && vfio->Ok_0 == (CmbAction::EnableMapped {
            size,
            bir: 2,
        }),
        mode is Mapped && bir != 2 ==> vfio is Err && vfio->Err_0 == (CmbError::UnsupportedBir {
            bir,
        }),
{
}

/// A vfio-user socket comes first, then a TCP address, and a virtual machine socket last.
pub proof fn law_transport_is_chosen(sock: bool, addr: bool, r: TransportKind)
    requires
        call_ensures(startup::select_transport, (sock, addr), r),
    ensures
        r is VfioUser <==> sock,
        r is Tcp <==> !sock && addr,
        r is Vsock <==> !sock && !addr,
{
}

/// Without a limit there is always another attempt; with one there are as many as it says.
pub proof fn law_attempts_end_at_the_limit(attempt: u32, retries: u32, r: bool)
    requires
        call_ensures(startup::retry_connect, (attempt, retries), r),
    ensures
        retries == 0 ==> r,
        retries != 0 && attempt < retries ==> r,
        retries != 0 && attempt >= retries ==> !r,
{
}

/// The registers have fixed places, by name.
pub proof fn law_registers_are_in_place(reg: Reg, r: u64)
    requires
        call_ensures(Reg::offset, (reg,), r),
    ensures
        reg is Cap ==> r == 0,
        reg is Vs ==> r == 8,
        reg is Intms ==> r == 12,
        reg is Intmc ==> r == 16,
        reg is Cc ==> r == 20,
        reg is Csts ==> r == 28,
        reg is Aqa ==> r == 36,
        reg is Asq ==> r == 40,
        reg is Acq ==> r == 48,
        reg is Cmbloc ==> r == 56,
        reg is Cmbsz ==> r == 60,
        reg is Bpinfo ==> r == 64,
        reg is Bprsel ==> r == 68,
        reg is Bpmbl ==> r == 72,
        reg is Cmbmsc ==> r == 80,
        reg is Cmbsts ==> r == 88,
        reg is Pmrcap ==> r == 0xe00,
        reg is Pmrctl ==> r == 0xe04,
        reg is Pmrsts ==> r == 0xe08,
{
}

/// The capabilities: the queue depth less one in 16 bits, contiguous queues, a time limit of
/// five seconds in units of half a second in the fourth byte, the NVM command set in bit 37,
/// and the controller memory buffer in bit 57.
pub proof fn law_capabilities(max_qe: u32, cmb: bool, r: u64)
    requires
        call_ensures(regs::build_cap, (max_qe, cmb), r),
        1 <= max_qe <= 65536,
    ensures
        r as int % 0x1_0000 == max_qe - 1,
        r as int / 0x1_0000 % 0x100 == 1,
        r as int / 0x100_0000 % 0x100 == 10,
        r as int / 0x1_0000_0000 % 0x200_0000 == 0x20,
        r as int / 0x0200_0000_0000_0000 == (if cmb {
            1int
        } else {
            0int
        }),
{
}

/// The fields of the configuration and the status lie where their masks say, side by side:
/// each mask is as wide as its field and starts at its shift, and no field reaches into the
/// next one.
pub proof fn law_fields_lie_side_by_side()
    ensures
        cc::EN == 1,
        cc::MPS_SHIFT == 7 && cc::MPS_MASK == 0xf * pow2(cc::MPS_SHIFT as nat),
        cc::SHN_SHIFT == 14 && cc::SHN_MASK == 3 * pow2(cc::SHN_SHIFT as nat),
        cc::IOSQES_SHIFT == cc::SHN_SHIFT + 2,
        cc::IOCQES_SHIFT == cc::IOSQES_SHIFT + 4,
        cc::CSS_NVM == 0 && cc::AMS_RR == 0,
        cc::SHN_NORMAL == 0,
        cc::SHN_NORMAL_SHUTDOWN == cc::SHN_NORMAL + 1,
        cc::SHN_ABRUPT_SHUTDOWN == cc::SHN_NORMAL_SHUTDOWN + 1,
        csts::RDY == 1,
        csts::CFS == 2 * csts::RDY,
        csts::SHST_MASK == 3 * (2 * csts::CFS),
        csts::SHST_NORMAL == 0,
        csts::SHST_OCCURRING == 2 * csts::CFS,
        csts::SHST_COMPLETE == 2 * csts::SHST_OCCURRING,
        cmbloc::BIR_SHIFT == 0 && cmbloc::BIR_MASK == 7,
        cmbloc::OFST_SHIFT == 12 && cmbloc::OFST_MASK == 0xf_ffff * pow2(
            cmbloc::OFST_SHIFT as nat,
        ),
        regs::DOORBELL_BAR0_OFFSET < regs::MSIX_TABLE_BAR0_OFFSET < regs::MSIX_PBA_BAR0_OFFSET
            < regs::BAR0_SIZE,
        regs::NVME_PAGE_SIZE == pow2(regs::NVME_PAGE_SHIFT as nat),
        regs::MDTS_MAX_BYTES == pow2(regs::MDTS_PAGES_LOG2 as nat) * regs::NVME_PAGE_SIZE,
        regs::MDTS_PAGES_LOG2 == 5 && regs::NVME_PAGE_SHIFT == 12,
        regs::SQE_BYTES == 64 && regs::CQE_BYTES == 16,
{
    vstd::arithmetic::power2::lemma2_to64();
}

/// Size units grow sixteenfold from 4 KiB.
pub proof fn law_size_units(szu: u32, r: u64, next: u64)
    requires
        szu < 12,
        call_ensures(cmbsz::unit_bytes, (szu,), r),
        call_ensures(cmbsz::unit_bytes, ((szu + 1) as u32,), next),
    ensures
        szu == 0 ==> r == 4096,
        next == 16 * r,
{
}

} // verus!
