//! Laying transfers out over pages, and bringing data to the host.
use vstd::prelude::*;

use crate::controller::ctx::{DeviceCtx, Event, Trace};
use crate::controller::inflight::{PendingIo, PendingOp};
use crate::controller::prp;
use crate::controller::prp::{DispatchSegs, Prp2Role, PrpTier};
use crate::controller::transfer;
use crate::controller::NvmeController;
use crate::laws;
use crate::laws::bytes;
use crate::laws::doorbells;

verus! {

/// How many of the `total` bytes from `offset` on lie in page `i`, where pages of 4096 bytes
/// follow each other from 0 on.
pub open spec fn bytes_in_page(i: int, offset: int, total: int) -> int {
    let from = if offset > 4096 * i {
        offset
    } else {
        4096 * i
    };
    let to = if offset + total < 4096 * (i + 1) {
        offset + total
    } else {
        4096 * (i + 1)
    };
    if to > from {
        to - from
    } else {
        0
    }
}

/// How many pages the `total` bytes from `offset` on reach into.
pub open spec fn pages_reached(offset: int, total: int) -> int {
    if total == 0 {
        0
    } else {
        (offset + total - 1) / 4096 + 1
    }
}

/// The offset of a pointer is how far it is into its page.
pub proof fn law_offset_in_page(prp1: u64, r: u64)
    requires
        call_ensures(prp::prp1_offset, (prp1,), r),
    ensures
        r < 4096,
        (prp1 - r) % 4096 == 0,
        r <= prp1,
{
}

/// Segment by segment a transfer is what lies in each page, in as many segments as it reaches
/// pages.
pub proof fn law_segments_are_pages(
    offset: u64,
    total: u64,
    i: u32,
    first: u64,
    pages: u32,
    len: u32,
)
    requires
        offset <= 4096,
        call_ensures(prp::first_seg_len, (offset, total), first),
        call_ensures(prp::total_pages, (offset, total), pages),
        call_ensures(prp::page_size, (i, offset, total), len),
    ensures
        first == bytes_in_page(0, offset as int, total as int),
        pages == pages_reached(offset as int, total as int),
        len == bytes_in_page(i as int, offset as int, total as int),
        i >= pages ==> len == 0,
        i < pages && offset < 4096 ==> len > 0,
{
}

/// One pointer reaches one page, two reach two, and for more there is a list; the second
/// pointer is what the number of pages makes it.
pub proof fn law_pointers_by_pages(offset: u64, total: u64, t: PrpTier, role: Prp2Role)
    requires
        offset <= 4096,
        call_ensures(prp::tier, (offset, total), t),
        call_ensures(prp::prp2_role, (offset, total), role),
    ensures
        t is Single <==> pages_reached(offset as int, total as int) <= 1,
        t is Dual <==> pages_reached(offset as int, total as int) == 2,
        t is List <==> pages_reached(offset as int, total as int) >= 3,
        role is Unused <==> t is Single,
        role is DataPage <==> t is Dual,
        role is ListPage <==> t is List,
{
}

/// What is known at once of a transfer: all of it in one page, the two parts of it in two,
/// and else the part in the first page.
pub proof fn law_segments_known_at_once(prp1: u64, prp2: u64, total: u64, r: DispatchSegs)
    requires
        call_ensures(prp::dispatch_segs, (prp1, prp2, total), r),
        total <= u32::MAX,
    ensures
        ({
            let offset = prp1 as int % 4096;
            let pages = pages_reached(offset, total as int);
            if pages <= 1 {
                r is Single && r->Single_prp1 == prp1 && r->len == total
            } else if pages == 2 {
                &&& r is Dual
                &&& r->Dual_prp1 == prp1
                &&& r->prp2 == prp2
                &&& r->len0 == bytes_in_page(0, offset, total as int)
                &&& r->len1 == bytes_in_page(1, offset, total as int)
                &&& r->len0 + r->len1 == total
            } else {
                &&& r is List
                &&& r->List_prp1 == prp1
                &&& r->first_len == bytes_in_page(0, offset, total as int)
            }
        }),
{
}

/// A page of a list is an address in every eight bytes, zeroes included, low byte first; a
/// rest is none.
pub proof fn law_list_of_addresses(data: &[u8], r: Vec<u64>, i: int)
    requires
        call_ensures(transfer::parse_prp_list, (data,), r),
    ensures
        r@.len() * 8 <= data@.len() < r@.len() * 8 + 8,
        0 <= i < r@.len() ==> r@[i] == bytes::eight_bytes(data@, 8 * i),
{
    if 0 <= i < r@.len() {
        doorbells::lemma_eight_bytes(data@, i * 8);
    }
}

/// Operations are numbered one after the other.
pub proof fn law_operations_are_numbered(c: &mut NvmeController, r: u64)
    requires
        call_ensures(NvmeController::alloc_op_id, (c,), r),
    ensures
        r == old(c).next_op_id,
        final(c).next_op_id == laws::token_after(r),
        final(c).next_op_id != r,
        *final(c) == (NvmeController { next_op_id: final(c).next_op_id, ..*old(c) }),
{
}

/// A transfer of command `cid` is held under `token`, and belongs to no namespace.
pub open spec fn held(
    ios: Map<u64, PendingIo>,
    token: u64,
    sq_id: u16,
    cid: u16,
    sq_head: u16,
    cq_id: u16,
) -> bool {
    &&& ios.contains_key(token)
    &&& ios[token].sq_id == sq_id
    &&& ios[token].cid == cid
    &&& ios[token].sq_head == sq_head
    &&& ios[token].cq_id == cq_id
    &&& ios[token].nsid == 0
}

/// Request number `n` after `t` writes the bytes of `data` from `from` up to `to` to `gpa`.
pub open spec fn part_written(
    t: Trace,
    t_after: Trace,
    n: int,
    gpa: u64,
    data: Seq<u8>,
    from: int,
    to: int,
) -> bool {
    let w = laws::request(t, t_after, n);
    &&& w is DmaWrite
    &&& w->DmaWrite_token == doorbells::token_number(t, n)
    &&& w->DmaWrite_gpa == gpa
    &&& w->DmaWrite_data == data.subrange(from, to)
}

/// Up to a page goes to the first address, and ends the command when it is there.
pub proof fn law_one_page_goes_to_the_first_address(
    c: &mut NvmeController,
    ctx: &mut DeviceCtx,
    prp1: u64,
    prp2: u64,
    data: Vec<u8>,
    cid: u16,
    sq_id: u16,
    sq_head: u16,
    cq_id: u16,
)
    requires
        call_ensures(
            NvmeController::dma_write_then_complete,
            (c, ctx, prp1, prp2, data, cid, sq_id, sq_head, cq_id),
            (),
        ),
        data@.len() <= 4096,
    ensures
        ({
            let (t, t2) = (old(ctx)@, final(ctx)@);
            let ios = final(c).pending_ios@;
            &&& laws::more_requests(t, t2, 1)
            &&& t2.next_token == doorbells::token_number(t, 1)
            &&& part_written(t, t2, 0, prp1, data@, 0, data@.len() as int)
            &&& ios == old(c).pending_ios@.insert(t.next_token, ios[t.next_token])
            &&& held(ios, t.next_token, sq_id, cid, sq_head, cq_id)
            &&& ios[t.next_token].op == (PendingOp::NvmReadDmaWrite { num_blocks: 0 })
        }),
        final(c).prp_list_ops@ == old(c).prp_list_ops@,
        final(c).next_op_id == old(c).next_op_id,
        *final(c) == (NvmeController {
            pending_ios: final(c).pending_ios,
            prp_list_ops: final(c).prp_list_ops,
            next_op_id: final(c).next_op_id,
            ..*old(c)
        }),
{
    let a = final(c).commands(final(ctx)@);
    assert(a.ios == final(c).pending_ios@ && a.link.trace == final(ctx)@);
    assert(data@.subrange(0, data@.len() as int) =~= data@);
    let t = old(ctx)@;
    assert(final(c).pending_ios@ =~= old(c).pending_ios@.insert(
        t.next_token,
        final(c).pending_ios@[t.next_token],
    ));
}

/// Of two pages the first goes to the first address and the second to the second one; the
/// second one ends the command, and the first one does not.
pub proof fn law_two_pages_go_to_two_addresses(
    c: &mut NvmeController,
    ctx: &mut DeviceCtx,
    prp1: u64,
    prp2: u64,
    data: Vec<u8>,
    cid: u16,
    sq_id: u16,
    sq_head: u16,
    cq_id: u16,
)
    requires
        call_ensures(
            NvmeController::dma_write_then_complete,
            (c, ctx, prp1, prp2, data, cid, sq_id, sq_head, cq_id),
            (),
        ),
        4096 < data@.len() <= 8192,
    ensures
        ({
            let (t, t2) = (old(ctx)@, final(ctx)@);
            let ios = final(c).pending_ios@;
            let (tok0, tok1) = (doorbells::token_number(t, 0), doorbells::token_number(t, 1));
            &&& laws::more_requests(t, t2, 2)
            &&& t2.next_token == doorbells::token_number(t, 2)
            &&& part_written(t, t2, 0, prp1, data@, 0, 4096)
            &&& part_written(t, t2, 1, prp2, data@, 4096, data@.len() as int)
            &&& ios == old(c).pending_ios@.insert(tok0, ios[tok0]).insert(tok1, ios[tok1])
            &&& held(ios, tok0, sq_id, cid, sq_head, cq_id)
            &&& held(ios, tok1, sq_id, cid, sq_head, cq_id)
            &&& ios[tok0].op is NvmReadDualPrpSiblingHalf
            &&& ios[tok1].op == (PendingOp::NvmReadDmaWrite { num_blocks: 0 })
        }),
        final(c).prp_list_ops@ == old(c).prp_list_ops@,
        final(c).next_op_id == old(c).next_op_id,
        *final(c) == (NvmeController {
            pending_ios: final(c).pending_ios,
            prp_list_ops: final(c).prp_list_ops,
            next_op_id: final(c).next_op_id,
            ..*old(c)
        }),
{
    let a = final(c).commands(final(ctx)@);
    assert(a.ios == final(c).pending_ios@ && a.link.trace == final(ctx)@);
    assert(data@.subrange(0, 4096) =~= data@.take(4096));
    assert(data@.subrange(4096, data@.len() as int) =~= data@.skip(4096));
    let t = old(ctx)@;
    let (tok0, tok1) = (doorbells::token_number(t, 0), doorbells::token_number(t, 1));
    let ios = final(c).pending_ios@;
    assert(tok0 != tok1);
    assert(ios =~= old(c).pending_ios@.insert(tok0, ios[tok0]).insert(tok1, ios[tok1]));
}

/// For more than two pages the list at the second address is read first. Until then all of
/// the data waits, page by page, for an operation under a number of its own; nothing is
/// written.
pub proof fn law_more_pages_wait_for_the_list(
    c: &mut NvmeController,
    ctx: &mut DeviceCtx,
    prp1: u64,
    prp2: u64,
    data: Vec<u8>,
    cid: u16,
    sq_id: u16,
    sq_head: u16,
    cq_id: u16,
    i: int,
)
    requires
        call_ensures(
            NvmeController::dma_write_then_complete,
            (c, ctx, prp1, prp2, data, cid, sq_id, sq_head, cq_id),
            (),
        ),
        8192 < data@.len(),
        pages_reached(0, data@.len() as int) <= u32::MAX,
    ensures
        ({
            let (t, t2) = (old(ctx)@, final(ctx)@);
            let ios = final(c).pending_ios@;
            let id = old(c).next_op_id;
            let op = final(c).prp_list_ops@[id];
            let len = data@.len() as int;
            &&& laws::more_requests(t, t2, 1)
            &&& t2.next_token == doorbells::token_number(t, 1)
            &&& laws::request(t, t2, 0) == (Event::DmaRead {
                token: t.next_token,
                gpa: prp2,
                len: 4096,
            })
            &&& ios == old(c).pending_ios@.insert(t.next_token, ios[t.next_token])
            &&& held(ios, t.next_token, sq_id, cid, sq_head, cq_id)
            &&& ios[t.next_token].op == (PendingOp::NvmReadPrpListFetch { op_id: id })
            &&& final(c).next_op_id == laws::token_after(id)
            &&& final(c).prp_list_ops@ == old(c).prp_list_ops@.insert(id, op)
            &&& op.sq_id == sq_id
            &&& op.cid == cid
            &&& op.sq_head == sq_head
            &&& op.cq_id == cq_id
            &&& op.nsid == 0
            &&& op.lba == 0
            &&& op.num_blocks == 0
            &&& !op.is_write
            &&& op.prp1_gpa == prp1
            &&& op.list_entries is None
            &&& op.pages_done == 0
            &&& op.total_pages == pages_reached(0, len)
            &&& op.data_pages@.len() == op.total_pages
            &&& 0 <= i < op.total_pages ==> {
                &&& op.data_pages@[i] is Some
                &&& op.data_pages@[i]->0@ == data@.subrange(
                    4096 * i,
                    4096 * i + bytes_in_page(i, 0, len),
                )
            }
        }),
        *final(c) == (NvmeController {
            pending_ios: final(c).pending_ios,
            prp_list_ops: final(c).prp_list_ops,
            next_op_id: final(c).next_op_id,
            ..*old(c)
        }),
{
    let a = final(c).commands(final(ctx)@);
    assert(a.ios == final(c).pending_ios@ && a.link.trace == final(ctx)@);
    let t = old(ctx)@;
    assert(final(c).pending_ios@ =~= old(c).pending_ios@.insert(
        t.next_token,
        final(c).pending_ios@[t.next_token],
    ));
    let op = final(c).prp_list_ops@[old(c).next_op_id];
    let pages = transfer::pages_of(op);
    assert(pages.len() == op.data_pages@.len());
    assert(pages == transfer::split_pages(data@));
    if 0 <= i < op.total_pages {
        assert(pages[i] == Some(transfer::page_bytes(data@, i)));
        assert(op.data_pages@[i] is Some);
        assert(op.data_pages@[i]->0@ =~= data@.subrange(
            4096 * i,
            4096 * i + bytes_in_page(i, 0, data@.len() as int),
        ));
    }
}

/// The highest token in flight is one that is in flight, and none is higher; it is 0 where
/// none is.
pub proof fn law_highest_token(c: &NvmeController, r: u64, t: u64)
    requires
        call_ensures(NvmeController::nvme_token_high_water, (c,), r),
    ensures
        c.pending_ios@.contains_key(t) ==> t <= r,
        c.pending_ios@.contains_key(t) ==> c.pending_ios@.contains_key(r),
        !c.pending_ios@.contains_key(r) ==> r == 0,
{
    assert(!Set::<u64>::empty().contains(t));
    assert(c.pending_ios@.dom().contains(t) == c.pending_ios@.contains_key(t));
}

} // verus!
