//! The controller as a PCIe device, and as the target of a fabrics connection.
use vstd::prelude::*;

use crate::bytes;
use crate::cmd::Sqe;
use crate::controller::ctx::{DeviceCtx, Trace};
use crate::controller::dispatch::CommandRequest;
use crate::controller::inflight::PendingIo;
use crate::controller::queues;
use crate::controller::shadow::Shadow;
use crate::controller::NvmeController;
use crate::regs::{BAR0_SIZE, MSIX_CAP_ID, MSIX_PBA_BAR0_OFFSET, MSIX_TABLE_BAR0_OFFSET};

verus! {

broadcast use vstd::std_specs::hash::group_hash_axioms;

#[derive(Debug, Clone, Copy, PartialEq, Eq, Structural)]
pub enum BarKind {
    /// Memory space, 32-bit address.
    Mmio32,
    /// Memory space, 64-bit address.
    Mmio64,
}

/// A base address register.
#[derive(Debug, Clone, Copy, PartialEq, Eq, Structural)]
pub struct BarLayout {
    pub index: u32,
    /// Length in bytes.
    pub size: u64,
    pub kind: BarKind,
    pub prefetchable: bool,
}

/// A PCI capability, without its identifier and link bytes.
#[derive(Debug)]
pub struct Capability {
    pub cap_id: u8,
    pub raw: Vec<u8>,
}

/// What the configuration space of the device says.
#[derive(Debug)]
pub struct DeviceDescribe {
    pub vendor_id: u16,
    pub device_id: u16,
    /// Base class, subclass and programming interface.
    pub class_code: u32,
    pub revision: u8,
    pub subsystem_vendor: u16,
    pub subsystem_device: u16,
    pub bars: Vec<BarLayout>,
    pub msix_count: u32,
    pub capabilities: Vec<Capability>,
    /// Offsets in configuration space whose writes the device wants to hear of.
    pub cfg_write_side_effect_offsets: Vec<u32>,
}

/// The body of the MSI-X capability for `n` vectors: the table size less one in 11
/// bits, then where in BAR0 the table and the pending bits are.
pub open spec fn msix_body(n: u16) -> Seq<u8> {
    bytes::le16_bytes(
        (if n == 0 {
            0
        } else {
            (n - 1) as u16
        }) & 0x07ff,
    ) + bytes::le32_bytes(0x2000) + bytes::le32_bytes(0x3000)
}

/// A register access that a property command makes.
#[derive(Debug, Clone, Copy, PartialEq, Eq, Structural)]
pub struct PropertyAccess {
    /// Offset in BAR0.
    pub offset: u64,
    /// 4 or 8 bytes.
    pub size: u32,
}

/// The registers that a property command may name: CAP, VS, CC, CSTS and NSSR.
pub open spec fn property_offset(ofst: u32) -> bool {
    ofst == 0x00 || ofst == 0x08 || ofst == 0x14 || ofst == 0x1c || ofst == 0x20
}

/// The access that a property command makes; `None` where it names no register or is
/// neither 4 nor 8 bytes long.
pub open spec fn property_access(ofst: u32, size: u32) -> Option<PropertyAccess> {
    if property_offset(ofst) && (size == 4 || size == 8) {
        Some(PropertyAccess { offset: ofst as u64, size })
    } else {
        None
    }
}

/// An admin command of a connection, to be executed.
#[derive(Debug, Clone, Copy, PartialEq, Eq, Structural)]
pub struct AdminDispatch {
    pub request: CommandRequest,
    /// The connection whose command was being dispatched before.
    pub prev_conn_id: u32,
}

/// Whose transfer ended.
#[derive(Debug)]
pub enum DmaRoute {
    /// The controller's own: nothing remains to be done.
    Done,
    /// The transfer of a command, which is to go on.
    Command(PendingIo),
    /// Nobody's: the command was aborted, or the controller reset.
    Unknown,
}

impl NvmeController {
    /// See `msix_body`.
    pub fn msix_capability(&self) -> (r: Capability)
        ensures
            r.cap_id == MSIX_CAP_ID,
            r.raw@ == msix_body(self.msix_count),
    {
        let message_control: u16 = self.msix_count.saturating_sub(1) & 0x07ff;
        let mut raw: Vec<u8> = Vec::new();
        bytes::push_le16(&mut raw, message_control);
        bytes::push_le32(&mut raw, MSIX_TABLE_BAR0_OFFSET as u32);
        bytes::push_le32(&mut raw, MSIX_PBA_BAR0_OFFSET as u32);
        assert(raw@ =~= msix_body(self.msix_count));
        Capability { cap_id: MSIX_CAP_ID, raw }
    }

    /// An NVMe controller with one memory BAR, and, where it has any vectors, MSI-X.
    pub fn describe(&self) -> (r: DeviceDescribe)
        ensures
            r.vendor_id == self.vid,
            r.device_id == 0xc0de,
            r.class_code == 0x01_08_02,
            r.revision == 1,
            r.subsystem_vendor == self.ssvid,
            r.subsystem_device == 0,
            r.bars@ == seq![
                BarLayout { index: 0, size: BAR0_SIZE, kind: BarKind::Mmio32, prefetchable: false },
            ],
            r.msix_count == self.msix_count,
            self.msix_count == 0 ==> r.capabilities@.len() == 0,
            self.msix_count > 0 ==> r.capabilities@.len() == 1 && r.capabilities@[0].cap_id
                == MSIX_CAP_ID && r.capabilities@[0].raw@ == msix_body(self.msix_count),
            r.cfg_write_side_effect_offsets@.len() == 0,
    {
        let mut bars: Vec<BarLayout> = Vec::new();
        bars.push(
            BarLayout { index: 0, size: BAR0_SIZE, kind: BarKind::Mmio32, prefetchable: false },
        );
        let mut capabilities: Vec<Capability> = Vec::new();
        if self.msix_count > 0 {
            capabilities.push(self.msix_capability());
        }
        DeviceDescribe {
            vendor_id: self.vid,
            device_id: 0xc0de,
            class_code: 0x01_08_02,
            revision: 1,
            subsystem_vendor: self.ssvid,
            subsystem_device: 0,
            bars,
            msix_count: self.msix_count as u32,
            capabilities,
            cfg_write_side_effect_offsets: Vec::new(),
        }
    }

    /// See `property_offset`.
    pub fn is_valid_property_offset(ofst: u32) -> (r: bool)
        ensures
            r == property_offset(ofst),
    {
        ofst == 0x00 || ofst == 0x08 || ofst == 0x14 || ofst == 0x1c || ofst == 0x20
    }

    /// The register read that a property command makes; `None` refuses the command.
    pub fn nvme_property_get(&self, ofst: u32, size: u32) -> (r: Option<PropertyAccess>)
        ensures
            r == property_access(ofst, size),
    {
        if !Self::is_valid_property_offset(ofst) || !(size == 4 || size == 8) {
            return None;
        }
        Some(PropertyAccess { offset: ofst as u64, size })
    }

    /// The register write that a property command makes, and the value; `None` refuses
    /// the command.
    pub fn nvme_property_set(&self, ofst: u32, size: u32, value: u64) -> (r: Option<
        (PropertyAccess, u64),
    >)
        ensures
            r == (match property_access(ofst, size) {
                Some(a) => Some((a, value)),
                None => None,
            }),
    {
        if !Self::is_valid_property_offset(ofst) || !(size == 4 || size == 8) {
            return None;
        }
        Some((PropertyAccess { offset: ofst as u64, size }, value))
    }

    /// Takes an admin command that came over no particular connection.
    pub fn nvme_admin_dispatch(&mut self, sqe: Sqe, cid: u16, cq_id: u16) -> (r: AdminDispatch)
        ensures
            r == (AdminDispatch {
                request: CommandRequest { sq_id: 0, sqe, cid, sq_head: 0, cq_id },
                prev_conn_id: old(self).current_dispatch_conn_id,
            }),
            *final(self) == (NvmeController { current_dispatch_conn_id: 0, ..*old(self) }),
    {
        self.nvme_admin_dispatch_with_conn(sqe, cid, cq_id, 0)
    }

    /// Takes an admin command of connection `conn_id`. Until
    /// `nvme_admin_dispatch_done`, asynchronous event requests are queued for that
    /// connection.
    pub fn nvme_admin_dispatch_with_conn(
        &mut self,
        sqe: Sqe,
        cid: u16,
        cq_id: u16,
        conn_id: u32,
    ) -> (r: AdminDispatch)
        ensures
            r == (AdminDispatch {
                request: CommandRequest { sq_id: 0, sqe, cid, sq_head: 0, cq_id },
                prev_conn_id: old(self).current_dispatch_conn_id,
            }),
            *final(self) == (NvmeController { current_dispatch_conn_id: conn_id, ..*old(self) }),
    {
        let prev: u32 = self.current_dispatch_conn_id;
        self.current_dispatch_conn_id = conn_id;
        AdminDispatch {
            request: CommandRequest { sq_id: 0, sqe, cid, sq_head: 0, cq_id },
            prev_conn_id: prev,
        }
    }

    /// The command of `d` was executed: the dispatch around it, if there is one, goes on.
    pub fn nvme_admin_dispatch_done(&mut self, d: AdminDispatch)
        ensures
            *final(self) == (NvmeController {
                current_dispatch_conn_id: d.prev_conn_id,
                ..*old(self)
            }),
    {
        self.current_dispatch_conn_id = d.prev_conn_id;
    }

    /// Takes an I/O command that came over a fabrics connection.
    pub fn nvme_io_dispatch(&self, sq_id: u16, sqe: Sqe, cid: u16, cq_id: u16) -> (r: CommandRequest)
        ensures
            r == (CommandRequest { sq_id, sqe, cid, sq_head: 0, cq_id }),
    {
        CommandRequest { sq_id, sqe, cid, sq_head: 0, cq_id }
    }

    /// The transfer under `token` ended; `ok` tells whether it succeeded, and `data` is
    /// what a read brought. A fetch of commands that failed counts as one that brought
    /// nothing.
    pub fn on_dma_complete(&mut self, ctx: &mut DeviceCtx, token: u64, ok: bool, data: Vec<u8>) -> (r:
        DmaRoute)
        requires
            dma_fits(*old(self), old(ctx)@, token, ok, data@),
        ensures
            dma_ended(*old(self), old(ctx)@, *final(self), final(ctx)@, token, ok, data@, r),
    {
        let ghost s = self.shadow(ctx@);
        if self.pending_shadow_polls.contains_key(&token) {
            if let Some(p) = self.pending_shadow_polls.remove(&token) {
                assert(self.shadow(ctx@) =~= (Shadow { polls: s.polls.remove(token), ..s }));
                self.handle_shadow_poll_complete(ctx, p, ok, data);
            }
            return DmaRoute::Done;
        }
        if self.pending_eventidx_writes.contains(&token) {
            let _ = self.pending_eventidx_writes.remove(&token);
            assert(self.shadow(ctx@) =~= (Shadow { writes: s.writes.remove(token), ..s }));
            return DmaRoute::Done;
        }
        if self.pending_fetches.contains_key(&token) {
            let got: Vec<u8> = if ok {
                data
            } else {
                Vec::new()
            };
            self.on_fetched_sqes(token, got);
            return DmaRoute::Done;
        }
        match self.pending_ios.remove(&token) {
            Some(p) => DmaRoute::Command(p),
            None => {
                assert(self.pending_ios@ =~= old(self).pending_ios@.remove(token));
                DmaRoute::Unknown
            },
        }
    }

    /// A transfer of an admin command that came over a connection ended.
    pub fn nvme_admin_complete_dma(
        &mut self,
        ctx: &mut DeviceCtx,
        token: u64,
        ok: bool,
        data: Vec<u8>,
    ) -> (r: DmaRoute)
        requires
            dma_fits(*old(self), old(ctx)@, token, ok, data@),
        ensures
            dma_ended(*old(self), old(ctx)@, *final(self), final(ctx)@, token, ok, data@, r),
    {
        self.on_dma_complete(ctx, token, ok, data)
    }
}

/// The machine has room for what the end of the transfer under `token` brings about.
pub open spec fn dma_fits(s: NvmeController, t: Trace, token: u64, ok: bool, data: Seq<u8>) -> bool {
    if s.pending_shadow_polls@.contains_key(token) {
        s.shadow(t).poll_fits(s.pending_shadow_polls@[token], ok, data)
    } else {
        s.pending_eventidx_writes@.contains(token) || queues::fetch_fits(
            s,
            token,
            if ok {
                data
            } else {
                Seq::empty()
            },
        )
    }
}

/// The transfer under `token` ended: a read of a shadow doorbell, a write of an event
/// index, a fetch of commands, or a transfer of a command. It is forgotten in any case.
pub open spec fn dma_ended(
    before: NvmeController,
    t: Trace,
    after: NvmeController,
    t_after: Trace,
    token: u64,
    ok: bool,
    data: Seq<u8>,
    r: DmaRoute,
) -> bool {
    let s = before.shadow(t);
    if s.polls.contains_key(token) {
        &&& r is Done
        &&& after.shadow(t_after) == (Shadow { polls: s.polls.remove(token), ..s }).poll_ended(
            s.polls[token],
            ok,
            data,
        )
        &&& after.same_but_shadow(before)
    } else if s.writes.contains(token) {
        &&& r is Done
        &&& after.shadow(t_after) == (Shadow { writes: s.writes.remove(token), ..s })
        &&& after.same_but_shadow(before)
    } else if s.fetches.contains_key(token) {
        &&& r is Done
        &&& t_after == t
        &&& queues::fetch_taken(
            before,
            after,
            token,
            if ok {
                data
            } else {
                Seq::empty()
            },
        )
    } else {
        &&& t_after == t
        &&& r == (if before.pending_ios@.contains_key(token) {
            DmaRoute::Command(before.pending_ios@[token])
        } else {
            DmaRoute::Unknown
        })
        &&& after.pending_ios@ == before.pending_ios@.remove(token)
        &&& after == (NvmeController { pending_ios: after.pending_ios, ..before })
    }
}

/// The transfer of a command is handed out once: the token means nothing afterwards.
pub proof fn law_command_transfer_ends_once(
    before: NvmeController,
    t: Trace,
    after: NvmeController,
    t_after: Trace,
    token: u64,
    ok: bool,
    data: Seq<u8>,
    r: DmaRoute,
)
    requires
        dma_ended(before, t, after, t_after, token, ok, data, r),
        r is Command,
    ensures
        !after.pending_ios@.contains_key(token),
        !after.pending_fetches@.contains_key(token),
        !after.pending_shadow_polls@.contains_key(token),
        !after.pending_eventidx_writes@.contains(token),
{
}

} // verus!
