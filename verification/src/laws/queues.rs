//! Installing, removing and listing queues, and how the device shows itself.
use vstd::prelude::*;

use crate::bytes;
use crate::cmd::Sqe;
use crate::controller::device::{
    AdminDispatch, BarKind, Capability, DeviceDescribe, PropertyAccess,
};
use crate::controller::dispatch::CommandRequest;
use crate::controller::{AdminCqInstallError, NvmeController};
use crate::laws;
use crate::regs::CompletionQueue;

verus! {

/// Doorbells lie from 0x1000 up to 0x2000, four bytes each, two for each queue, the one of
/// the submission queue first.
pub proof fn law_doorbell_of_an_offset(offset: u64, r: Option<(bool, u16)>)
    requires
        call_ensures(NvmeController::parse_doorbell, (offset,), r),
    ensures
        r is Some <==> 0x1000 <= offset < 0x2000,
        r is Some ==> ({
            let (is_sq, qid) = r->0;
            let first = 0x1000 + 8 * qid + (if is_sq {
                0int
            } else {
                4int
            });
            first <= offset < first + 4
        }),
{
}

/// An empty queue of `size` entries at `base`: the first pass has tag 1, and there are no
/// interrupts.
pub open spec fn empty_cq(q: CompletionQueue, base: u64, size: u32) -> bool {
    &&& q.base_gpa == base
    &&& q.size == size
    &&& q.tail == 0
    &&& q.head == 0
    &&& q.phase == 1
    &&& q.interrupt_vector == 0
    &&& !q.interrupt_enabled
    &&& q.pending_completions == 0
    &&& q.last_fire is None
}

/// The admin completion queue is installed where there is none. The same queue again is
/// taken, and stays as far as it was filled; any other one is refused, with what is there and
/// what was asked for.
pub proof fn law_admin_queue_is_installed_once(
    c: &mut NvmeController,
    base: u64,
    size: u32,
    r: Result<(), AdminCqInstallError>,
)
    requires
        call_ensures(NvmeController::nvme_install_admin_cq, (c, base, size), r),
    ensures
        ({
            let q = old(c).cqs@[0];
            if !old(c).cqs@.contains_key(0) {
                &&& r is Ok
                &&& final(c).cqs@ == old(c).cqs@.insert(0, final(c).cqs@[0])
                &&& empty_cq(final(c).cqs@[0], base, size)
            } else {
                &&& final(c).cqs@ == old(c).cqs@
                &&& r is Ok <==> q.base_gpa == base && q.size == size
                &&& r is Err ==> r->Err_0 == (AdminCqInstallError::MismatchedParams {
                    old_base_gpa: q.base_gpa,
                    old_size: q.size,
                    new_base_gpa: base,
                    new_size: size,
                })
            }
        }),
        final(c).cqs@.contains_key(0),
        *final(c) == (NvmeController { cqs: final(c).cqs, ..*old(c) }),
{
    if !old(c).cqs@.contains_key(0) {
        assert(final(c).cqs@ =~= old(c).cqs@.insert(0, final(c).cqs@[0]));
    }
}

/// Forced, the admin completion queue is a new one whatever was there.
pub proof fn law_admin_queue_is_replaced(c: &mut NvmeController, base: u64, size: u32)
    requires
        call_ensures(NvmeController::nvme_force_install_admin_cq, (c, base, size), ()),
    ensures
        final(c).cqs@ == old(c).cqs@.insert(0, final(c).cqs@[0]),
        empty_cq(final(c).cqs@[0], base, size),
        *final(c) == (NvmeController { cqs: final(c).cqs, ..*old(c) }),
{
    assert(final(c).cqs@ =~= old(c).cqs@.insert(0, final(c).cqs@[0]));
}

/// An I/O queue pair up to number 256 is a new one whatever was there, and its submission
/// queue completes to its completion queue; other pairs stay. A number beyond changes
/// nothing.
pub proof fn law_io_pair_is_replaced(c: &mut NvmeController, qid: u16, base: u64, size: u32)
    requires
        call_ensures(NvmeController::nvme_force_install_io_queue, (c, qid, base, size), ()),
    ensures
        qid <= 256 ==> {
            let q = final(c).sqs@[qid];
            &&& final(c).cqs@ == old(c).cqs@.insert(qid, final(c).cqs@[qid])
            &&& final(c).sqs@ == old(c).sqs@.insert(qid, q)
            &&& empty_cq(final(c).cqs@[qid], base, size)
            &&& q.base_gpa == 0
            &&& q.size == size
            &&& q.head == 0
            &&& q.tail == 0
            &&& q.cq_id == qid
        },
        qid > 256 ==> final(c).cqs@ == old(c).cqs@ && final(c).sqs@ == old(c).sqs@,
        *final(c) == (NvmeController { cqs: final(c).cqs, sqs: final(c).sqs, ..*old(c) }),
{
    if qid <= 256 {
        assert(final(c).cqs@ =~= old(c).cqs@.insert(qid, final(c).cqs@[qid]));
        assert(final(c).sqs@ =~= old(c).sqs@.insert(qid, final(c).sqs@[qid]));
    }
}

/// There is an admin completion queue where queue 0 is there.
pub proof fn law_admin_queue_is_queue_0(c: &NvmeController, r: bool)
    requires
        call_ensures(NvmeController::nvme_has_admin_cq, (c,), r),
    ensures
        r <==> c.cqs@.contains_key(0),
{
}

/// An I/O queue that is removed is gone, and no other one; the admin queue is never removed.
pub proof fn law_queue_is_removed(c: &mut NvmeController, qid: u16, other: u16, is_sq: bool, r: bool)
    requires
        is_sq ==> call_ensures(NvmeController::nvme_delete_io_sq, (c, qid), r),
        !is_sq ==> call_ensures(NvmeController::nvme_delete_io_cq, (c, qid), r),
    ensures
        is_sq ==> {
            let (b, a) = (old(c).sqs@, final(c).sqs@);
            &&& r <==> qid != 0 && b.contains_key(qid)
            &&& a.contains_key(other) <==> b.contains_key(other) && (other != qid || qid == 0)
            &&& a.contains_key(other) ==> a[other] == b[other]
            &&& *final(c) == (NvmeController { sqs: final(c).sqs, ..*old(c) })
        },
        !is_sq ==> {
            let (b, a) = (old(c).cqs@, final(c).cqs@);
            &&& r <==> qid != 0 && b.contains_key(qid)
            &&& a.contains_key(other) <==> b.contains_key(other) && (other != qid || qid == 0)
            &&& a.contains_key(other) ==> a[other] == b[other]
            &&& *final(c) == (NvmeController { cqs: final(c).cqs, ..*old(c) })
        },
{
}

/// The lists name each I/O queue once, in ascending order, and never the admin queue.
pub proof fn law_queues_are_listed(
    c: &NvmeController,
    sqs: Vec<u16>,
    cqs: Vec<u16>,
    q: u16,
    i: int,
    j: int,
)
    requires
        call_ensures(NvmeController::nvme_list_io_sqs, (c,), sqs),
        call_ensures(NvmeController::nvme_list_io_cqs, (c,), cqs),
    ensures
        sqs@.contains(q) <==> q != 0 && c.sqs@.contains_key(q),
        cqs@.contains(q) <==> q != 0 && c.cqs@.contains_key(q),
        0 <= i < j < sqs@.len() ==> sqs@[i] < sqs@[j],
        0 <= i < j < cqs@.len() ==> cqs@[i] < cqs@[j],
{
    assert(sqs@.to_set().contains(q) <==> c.sqs@.dom().remove(0).contains(q));
    assert(cqs@.to_set().contains(q) <==> c.cqs@.dom().remove(0).contains(q));
}

pub(crate) proof fn lemma_two_bytes_of(x: u16)
    ensures
        bytes::le16_bytes(x).len() == 2,
        laws::two_bytes(bytes::le16_bytes(x), 0) == x,
        x & 0x07ff == x as int % 2048,
{
    assert(x == (x & 0xff) + 0x100 * (x >> 8) && (x & 0xff) < 0x100 && (x >> 8) < 0x100 && x & 0x07ff
        == x % 2048) by (bit_vector);
}

/// The interrupt capability names the number of vectors less one, and where in the BAR the
/// table and the pending bits are.
pub proof fn law_interrupt_capability(c: &NvmeController, r: Capability)
    requires
        call_ensures(NvmeController::msix_capability, (c,), r),
    ensures
        msix_shown(r, c.msix_count),
{
    lemma_msix(r, c.msix_count);
}

/// `r` is the interrupt capability of a device with `n` vectors.
pub open spec fn msix_shown(r: Capability, n: u16) -> bool {
    &&& r.cap_id == 0x11
    &&& r.raw@.len() == 10
    &&& laws::two_bytes(r.raw@, 0) == (if n == 0 {
        0
    } else {
        (n - 1) % 2048
    })
    &&& laws::four_bytes(r.raw@, 2) == 0x2000
    &&& laws::four_bytes(r.raw@, 6) == 0x3000
}

proof fn lemma_msix(r: Capability, n: u16)
    requires
        r.cap_id == 0x11,
        r.raw@ == crate::controller::device::msix_body(n),
    ensures
        msix_shown(r, n),
{
    let m: u16 = if n == 0 {
        0
    } else {
        (n - 1) as u16
    };
    lemma_two_bytes_of(m);
    lemma_two_bytes_of(m & 0x07ff);
    laws::lemma_bytes_of(0x2000);
    laws::lemma_bytes_of(0x3000);
    let b = r.raw@;
    assert(laws::two_bytes(b, 0) == laws::two_bytes(bytes::le16_bytes(m & 0x07ff), 0));
    assert(laws::four_bytes(b, 2) == laws::four_bytes(bytes::le32_bytes(0x2000), 0));
    assert(laws::four_bytes(b, 6) == laws::four_bytes(bytes::le32_bytes(0x3000), 0));
}

/// The device shows itself as an NVMe controller with one BAR of 16 KiB, under the
/// identifiers that it was given, and with the interrupt capability where it has vectors.
pub proof fn law_device_shows_itself(c: &NvmeController, r: DeviceDescribe)
    requires
        call_ensures(NvmeController::describe, (c,), r),
    ensures
        r.vendor_id == c.vid,
        r.subsystem_vendor == c.ssvid,
        r.device_id == 0xc0de,
        r.subsystem_device == 0,
        r.class_code == 0x1_0802,
        r.revision == 1,
        r.bars@.len() == 1,
        r.bars@[0].index == 0,
        r.bars@[0].size == 16384,
        r.bars@[0].kind == BarKind::Mmio32,
        !r.bars@[0].prefetchable,
        r.msix_count == c.msix_count,
        r.capabilities@.len() == (if c.msix_count == 0 {
            0nat
        } else {
            1nat
        }),
        c.msix_count != 0 ==> msix_shown(r.capabilities@[0], c.msix_count),
        r.cfg_write_side_effect_offsets@.len() == 0,
{
    if c.msix_count != 0 {
        lemma_msix(r.capabilities@[0], c.msix_count);
    }
}

/// Properties are the five registers that a fabrics host may name, read and written in four
/// or eight bytes; a write carries its value on.
pub proof fn law_properties(
    c: &NvmeController,
    ofst: u32,
    size: u32,
    value: u64,
    known: bool,
    get: Option<PropertyAccess>,
    set: Option<(PropertyAccess, u64)>,
)
    requires
        call_ensures(NvmeController::is_valid_property_offset, (ofst,), known),
        call_ensures(NvmeController::nvme_property_get, (c, ofst, size), get),
        call_ensures(NvmeController::nvme_property_set, (c, ofst, size, value), set),
    ensures
        known <==> ofst == 0 || ofst == 8 || ofst == 20 || ofst == 28 || ofst == 32,
        get is Some <==> known && (size == 4 || size == 8),
        get is Some ==> get->0.offset == ofst && get->0.size == size,
        set is Some <==> get is Some,
        set is Some ==> set->0 == (get->0, value),
{
}

/// While an admin command of a connection is dispatched, that connection is the current one;
/// afterwards the one before is again. The command goes on as it came, for queue 0.
pub proof fn law_dispatch_is_for_the_connection(
    c: &mut NvmeController,
    sqe: Sqe,
    cid: u16,
    cq_id: u16,
    conn: u32,
    d: AdminDispatch,
    after: &mut NvmeController,
)
    requires
        call_ensures(
            NvmeController::nvme_admin_dispatch_with_conn,
            (c, sqe, cid, cq_id, conn),
            d,
        ),
        call_ensures(NvmeController::nvme_admin_dispatch_done, (after, d), ()),
    ensures
        d.request.sq_id == 0,
        d.request.sqe == sqe,
        d.request.cid == cid,
        d.request.sq_head == 0,
        d.request.cq_id == cq_id,
        final(c).current_dispatch_conn_id == conn,
        *final(c) == (NvmeController {
            current_dispatch_conn_id: final(c).current_dispatch_conn_id,
            ..*old(c)
        }),
        final(after).current_dispatch_conn_id == old(c).current_dispatch_conn_id,
        *final(after) == (NvmeController {
            current_dispatch_conn_id: final(after).current_dispatch_conn_id,
            ..*old(after)
        }),
        *old(after) == *final(c) ==> *final(after) == *old(c),
{
}

/// An admin command without a connection is one of connection 0.
pub proof fn law_dispatch_without_connection(
    c: &mut NvmeController,
    sqe: Sqe,
    cid: u16,
    cq_id: u16,
    d: AdminDispatch,
    io: CommandRequest,
    sq_id: u16,
)
    requires
        call_ensures(NvmeController::nvme_admin_dispatch, (c, sqe, cid, cq_id), d),
        call_ensures(NvmeController::nvme_io_dispatch, (old(c), sq_id, sqe, cid, cq_id), io),
    ensures
        d.request.sq_id == 0,
        d.request.sqe == sqe,
        d.request.cid == cid,
        d.request.sq_head == 0,
        d.request.cq_id == cq_id,
        d.prev_conn_id == old(c).current_dispatch_conn_id,
        final(c).current_dispatch_conn_id == 0,
        *final(c) == (NvmeController {
            current_dispatch_conn_id: final(c).current_dispatch_conn_id,
            ..*old(c)
        }),
        io.sq_id == sq_id,
        io.sqe == sqe,
        io.cid == cid,
        io.sq_head == 0,
        io.cq_id == cq_id,
{
}

} // verus!
