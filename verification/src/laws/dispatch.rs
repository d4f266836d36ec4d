//! Taking commands from queues, and posting what they end with.
use vstd::arithmetic::power2::pow2;
use vstd::prelude::*;

use crate::cmd::{Cqe, Sqe};
use crate::controller::ctx::{DeviceCtx, Trace};
use crate::controller::dispatch;
use crate::controller::dispatch::{Commands, Route};
use crate::controller::namespace::Namespace;
use crate::controller::post;
use crate::controller::NvmeController;
use crate::laws;
use crate::laws::compare;
use crate::regs::CompletionQueue;

verus! {

/// Both commands of a pair are answered with `status`, the first one first, by way of `mid`:
/// the second answer carries the tag that the queue has after the first one.
pub open spec fn answered_in_turn(
    cqs: Map<u16, CompletionQueue>,
    t: Trace,
    mid: (Map<u16, CompletionQueue>, Trace),
    cqs_after: Map<u16, CompletionQueue>,
    t_after: Trace,
    aggr_thr: u8,
    cq_id: u16,
    sq_id: u16,
    first: (Sqe, u16),
    second: (Sqe, u16),
    status: int,
) -> bool {
    &&& laws::answered(
        cqs,
        t,
        mid.0,
        mid.1,
        aggr_thr,
        cq_id,
        laws::plain_answer(cqs, cq_id, sq_id, first.1, laws::cid_of(first.0), status),
    )
    &&& laws::answered(
        mid.0,
        mid.1,
        cqs_after,
        t_after,
        aggr_thr,
        cq_id,
        laws::plain_answer(mid.0, cq_id, sq_id, second.1, laws::cid_of(second.0), status),
    )
}

/// Both commands of a pair are answered with `status`, the first one first.
pub open spec fn both_answered(
    cqs: Map<u16, CompletionQueue>,
    t: Trace,
    cqs_after: Map<u16, CompletionQueue>,
    t_after: Trace,
    aggr_thr: u8,
    cq_id: u16,
    sq_id: u16,
    first: (Sqe, u16),
    second: (Sqe, u16),
    status: int,
) -> bool {
    exists|mid: (Map<u16, CompletionQueue>, Trace)|
        answered_in_turn(
            cqs,
            t,
            mid,
            cqs_after,
            t_after,
            aggr_thr,
            cq_id,
            sq_id,
            first,
            second,
            status,
        )
}

proof fn lemma_refused(
    s: Commands,
    aggr_thr: u8,
    cq_id: u16,
    sq_id: u16,
    sqe: Sqe,
    head: u16,
    status: u16,
)
    requires
        s.link.cqs.contains_key(cq_id) ==> laws::in_order(s.link.cqs[cq_id]),
        status < 0x8000,
    ensures
        ({
            let r = s.refused(aggr_thr, cq_id, sq_id, sqe, head, s.link.phase(cq_id), status);
            &&& laws::answered(
                s.link.cqs,
                s.link.trace,
                r.link.cqs,
                r.link.trace,
                aggr_thr,
                cq_id,
                laws::plain_answer(
                    s.link.cqs,
                    cq_id,
                    sq_id,
                    head,
                    laws::cid_of(sqe),
                    status as int,
                ),
            )
            &&& r.link.cqs.contains_key(cq_id) ==> laws::in_order(r.link.cqs[cq_id])
            &&& r.fused == s.fused
            &&& r.ios == s.ios
        }),
{
    laws::lemma_fields(sqe);
    laws::lemma_plain_posted(s.link, aggr_thr, cq_id, sqe.spec_cid(), sq_id, head, status);
}

proof fn lemma_pair_refused(
    s: Commands,
    aggr_thr: u8,
    cq_id: u16,
    sq_id: u16,
    first: (Sqe, u16),
    second: (Sqe, u16),
    status: u16,
)
    requires
        s.link.cqs.contains_key(cq_id) ==> laws::in_order(s.link.cqs[cq_id]),
        status < 0x8000,
    ensures
        ({
            let r = s.pair_refused(aggr_thr, cq_id, sq_id, first, second, status);
            &&& both_answered(
                s.link.cqs,
                s.link.trace,
                r.link.cqs,
                r.link.trace,
                aggr_thr,
                cq_id,
                sq_id,
                first,
                second,
                status as int,
            )
            &&& r.fused == s.fused
            &&& r.ios == s.ios
        }),
{
    lemma_refused(s, aggr_thr, cq_id, sq_id, first.0, first.1, status);
    let m = s.refused(aggr_thr, cq_id, sq_id, first.0, first.1, s.link.phase(cq_id), status);
    lemma_refused(m, aggr_thr, cq_id, sq_id, second.0, second.1, status);
    let r = s.pair_refused(aggr_thr, cq_id, sq_id, first, second, status);
    assert(answered_in_turn(
        s.link.cqs,
        s.link.trace,
        (m.link.cqs, m.link.trace),
        r.link.cqs,
        r.link.trace,
        aggr_thr,
        cq_id,
        sq_id,
        first,
        second,
        status as int,
    ));
}

/// The namespace that an I/O command names is there.
pub open spec fn is_served(namespaces: Map<u32, Namespace>, nsid: u32) -> bool {
    nsid != 0 && nsid != 0xffff_ffff && namespaces.contains_key(nsid)
}

/// Nothing that dispatching might change has changed.
pub open spec fn untouched(before: NvmeController, t: Trace, after: NvmeController, t_after: Trace) -> bool {
    &&& after.pending_fused@ == before.pending_fused@
    &&& after.pending_ios@ == before.pending_ios@
    &&& after.cqs@ == before.cqs@
    &&& t_after == t
}

/// The compare of a pair has started: the host is asked for the data of its blocks, and that
/// one transfer is held for the compare, under its own identifier, with its own head
/// pointer, and for its own namespace; the write waits with it.
pub open spec fn compare_is_on_its_way(
    before: NvmeController,
    t: Trace,
    after: NvmeController,
    t_after: Trace,
    cq_id: u16,
    sq_id: u16,
    first: (Sqe, u16),
    second: (Sqe, u16),
) -> bool {
    let ns = before.namespaces@[first.0.nsid];
    let io = after.pending_ios@[t.next_token];
    let read = laws::request(t, t_after, 0);
    &&& laws::more_requests(t, t_after, 1)
    &&& t_after.next_token == laws::token_after(t.next_token)
    &&& read is DmaRead
    &&& read->DmaRead_token == t.next_token
    &&& read->DmaRead_gpa == first.0.prp1
    &&& read->DmaRead_len == (laws::blocks_of(first.0) * pow2(ns.lbads as nat)) as u32
    &&& after.pending_ios@ == before.pending_ios@.insert(t.next_token, io)
    &&& io.sq_id == sq_id
    &&& io.cid == laws::cid_of(first.0)
    &&& io.sq_head == first.1
    &&& io.cq_id == cq_id
    &&& io.nsid == first.0.nsid
    &&& io.op is NvmCompareSinglePrpFused
    &&& io.op->NvmCompareSinglePrpFused_lba == laws::first_block_of(first.0)
    &&& io.op->NvmCompareSinglePrpFused_num_blocks == laws::blocks_of(first.0)
    &&& io.op->write_sqe == second.0
    &&& io.op->write_sq_head == second.1
    &&& io.op->write_sq_id == sq_id
    &&& after.cqs@ == before.cqs@
}

proof fn lemma_compare_started(
    before: NvmeController,
    mid: Commands,
    t: Trace,
    after: NvmeController,
    t_after: Trace,
    cq_id: u16,
    sq_id: u16,
    first: (Sqe, u16),
    second: (Sqe, u16),
)
    requires
        mid.ios == before.pending_ios@,
        mid.link == before.link(t),
        after.commands(t_after) == mid.compare_started(
            before.namespaces@,
            before.irq_aggr_threshold,
            cq_id,
            sq_id,
            first,
            second,
        ),
        before.cqs@.contains_key(cq_id) ==> laws::in_order(before.cqs@[cq_id]),
    ensures
        is_served(before.namespaces@, first.0.nsid) && !before.namespaces@[first.0.nsid].not_ready
            ==> compare_is_on_its_way(
            before,
            t,
            after,
            t_after,
            cq_id,
            sq_id,
            first,
            second,
        ),
        !is_served(before.namespaces@, first.0.nsid) || before.namespaces@[first.0.nsid].not_ready
            ==> after.pending_ios@ == before.pending_ios@ && both_answered(
            before.cqs@,
            t,
            after.cqs@,
            t_after,
            before.irq_aggr_threshold,
            cq_id,
            sq_id,
            first,
            second,
            if is_served(before.namespaces@, first.0.nsid) {
                0x82
            } else {
                0xb
            },
        ),
        after.pending_fused@ == mid.fused,
{
    laws::lemma_fields(first.0);
    laws::lemma_fields(second.0);
    let thr = before.irq_aggr_threshold;
    lemma_pair_refused(mid, thr, cq_id, sq_id, first, second, 0x82);
    lemma_pair_refused(mid, thr, cq_id, sq_id, first, second, 0xb);
    if is_served(before.namespaces@, first.0.nsid)
        && !before.namespaces@[first.0.nsid].not_ready {
        let c = after.commands(t_after);
        assert(c.ios == after.pending_ios@);
        assert(c.link.trace == t_after);
        assert(after.pending_ios@ =~= before.pending_ios@.insert(
            t.next_token,
            after.pending_ios@[t.next_token],
        ));
    }
}

/// A pair of a namespace that is there and ready starts with its compare: one transfer, held
/// for the compare and for nothing else. A pair of any other namespace fails, both commands
/// alike, the compare first, and no transfer starts.
pub proof fn law_pair_starts_with_its_compare(
    c: &mut NvmeController,
    ctx: &mut DeviceCtx,
    sq_id: u16,
    compare_sqe: Sqe,
    compare_sq_head: u16,
    write_sqe: Sqe,
    write_sq_head: u16,
    cq_id: u16,
)
    requires
        call_ensures(
            NvmeController::dispatch_fused_compare_write,
            (c, ctx, sq_id, compare_sqe, compare_sq_head, write_sqe, write_sq_head, cq_id),
            (),
        ),
        laws::all_in_order(old(c).cqs@),
    ensures
        ({
            let (first, second) = ((compare_sqe, compare_sq_head), (write_sqe, write_sq_head));
            let served = is_served(old(c).namespaces@, compare_sqe.nsid);
            if served && !old(c).namespaces@[compare_sqe.nsid].not_ready {
                compare_is_on_its_way(
                    *old(c),
                    old(ctx)@,
                    *final(c),
                    final(ctx)@,
                    cq_id,
                    sq_id,
                    first,
                    second,
                )
            } else {
                &&& final(c).pending_ios@ == old(c).pending_ios@
                &&& both_answered(
                    old(c).cqs@,
                    old(ctx)@,
                    final(c).cqs@,
                    final(ctx)@,
                    old(c).irq_aggr_threshold,
                    cq_id,
                    sq_id,
                    first,
                    second,
                    if served {
                        0x82
                    } else {
                        0xb
                    },
                )
            }
        }),
        final(c).pending_fused@ == old(c).pending_fused@,
        *final(c) == (NvmeController {
            pending_fused: final(c).pending_fused,
            pending_ios: final(c).pending_ios,
            cqs: final(c).cqs,
            ..*old(c)
        }),
{
    lemma_compare_started(
        *old(c),
        old(c).commands(old(ctx)@),
        old(ctx)@,
        *final(c),
        final(ctx)@,
        cq_id,
        sq_id,
        (compare_sqe, compare_sq_head),
        (write_sqe, write_sq_head),
    );
}

/// A first command of a fused pair.
pub open spec fn is_first(s: Sqe) -> bool {
    laws::fuse_of(s) == 1 && laws::opcode_of(s) == 5
}

/// The completion queue of queue `sq_id`; 0 where there is no such queue.
pub open spec fn queue_for(c: NvmeController, sq_id: u16) -> u16 {
    if c.sqs@.contains_key(sq_id) {
        c.sqs@[sq_id].cq_id
    } else {
        0
    }
}

/// A command that is not fused is handed on as it came, an admin command from queue 0 and an
/// I/O command from any other, and nothing changes; unless it comes where the second command
/// of a pair is due.
pub proof fn law_plain_command_is_handed_on(
    c: &mut NvmeController,
    ctx: &mut DeviceCtx,
    sq_id: u16,
    head: u16,
    sqe: Sqe,
    r: Route,
)
    requires
        call_ensures(NvmeController::dispatch_sqe, (c, ctx, sq_id, head, sqe), r),
        laws::fuse_of(sqe) == 0,
        sq_id == 0 || !old(c).pending_fused@.contains_key(sq_id),
    ensures
        untouched(*old(c), old(ctx)@, *final(c), final(ctx)@),
        *final(c) == (NvmeController {
            pending_fused: final(c).pending_fused,
            pending_ios: final(c).pending_ios,
            cqs: final(c).cqs,
            ..*old(c)
        }),
        sq_id == 0 <==> r is Admin,
        sq_id != 0 <==> r is Io,
        ({
            let q = if sq_id == 0 {
                r->Admin_0
            } else {
                r->Io_0
            };
            &&& q.sq_id == sq_id
            &&& q.sqe == sqe
            &&& q.cid == laws::cid_of(sqe)
            &&& q.sq_head == head
            &&& q.cq_id == queue_for(*old(c), sq_id)
        }),
{
    laws::lemma_fields(sqe);
    assert(final(c).commands(final(ctx)@) == old(c).commands(old(ctx)@));
}

/// The first command of a pair waits for its second one: nothing is posted for it and no
/// transfer starts. One that waited before it fails, for it lost its second one.
pub proof fn law_first_command_waits(
    c: &mut NvmeController,
    ctx: &mut DeviceCtx,
    sq_id: u16,
    head: u16,
    sqe: Sqe,
    r: Route,
)
    requires
        call_ensures(NvmeController::dispatch_sqe, (c, ctx, sq_id, head, sqe), r),
        sq_id != 0,
        is_first(sqe),
        laws::all_in_order(old(c).cqs@),
    ensures
        r is Done,
        final(c).pending_fused@ == old(c).pending_fused@.insert(sq_id, (sqe, head)),
        final(c).pending_ios@ == old(c).pending_ios@,
        ({
            let q = queue_for(*old(c), sq_id);
            let f = old(c).pending_fused@;
            if f.contains_key(sq_id) {
                laws::answered(
                    old(c).cqs@,
                    old(ctx)@,
                    final(c).cqs@,
                    final(ctx)@,
                    old(c).irq_aggr_threshold,
                    q,
                    laws::plain_answer(
                        old(c).cqs@,
                        q,
                        sq_id,
                        f[sq_id].1,
                        laws::cid_of(f[sq_id].0),
                        2,
                    ),
                )
            } else {
                final(c).cqs@ == old(c).cqs@ && final(ctx)@ == old(ctx)@
            }
        }),
{
    laws::lemma_fields(sqe);
    let s = old(c).commands(old(ctx)@);
    let q = queue_for(*old(c), sq_id);
    let thr = old(c).irq_aggr_threshold;
    let after = final(c).commands(final(ctx)@);
    if s.fused.contains_key(sq_id) {
        let m = Commands { fused: s.fused.remove(sq_id), ..s };
        lemma_refused(m, thr, q, sq_id, s.fused[sq_id].0, s.fused[sq_id].1, 2);
        assert(s.fused.remove(sq_id).insert(sq_id, (sqe, head)) =~= s.fused.insert(
            sq_id,
            (sqe, head),
        ));
    }
    assert(after.fused =~= s.fused.insert(sq_id, (sqe, head)));
}

/// The second command of a pair starts the compare of the first one, with the head pointers
/// that the two came with, where it is the write of the same blocks and the pair can be
/// done: plain blocks, and no more than a page of them. Else both fail, the first one first;
/// without a first one the second one fails alone. Nothing waits any more.
pub proof fn law_second_command_decides(
    c: &mut NvmeController,
    ctx: &mut DeviceCtx,
    sq_id: u16,
    head: u16,
    sqe: Sqe,
    r: Route,
)
    requires
        call_ensures(NvmeController::dispatch_sqe, (c, ctx, sq_id, head, sqe), r),
        sq_id != 0,
        laws::fuse_of(sqe) == 2,
        laws::all_in_order(old(c).cqs@),
    ensures
        r is Done,
        final(c).pending_fused@ == old(c).pending_fused@.remove(sq_id),
        ({
            let q = queue_for(*old(c), sq_id);
            let thr = old(c).irq_aggr_threshold;
            let (cqs, t, cqs2, t2) = (old(c).cqs@, old(ctx)@, final(c).cqs@, final(ctx)@);
            let first = old(c).pending_fused@[sq_id];
            let ns = old(c).namespaces@[first.0.nsid];
            let there = is_served(old(c).namespaces@, first.0.nsid);
            let small = compare::plain_blocks(ns) && laws::blocks_of(first.0) * pow2(
                ns.lbads as nat,
            ) <= 4096;
            if !old(c).pending_fused@.contains_key(sq_id) {
                &&& final(c).pending_ios@ == old(c).pending_ios@
                &&& laws::answered(
                    cqs,
                    t,
                    cqs2,
                    t2,
                    thr,
                    q,
                    laws::plain_answer(cqs, q, sq_id, head, laws::cid_of(sqe), 2),
                )
            } else if compare::same_blocks(first.0, sqe) && there && small && !ns.not_ready {
                compare_is_on_its_way(*old(c), t, *final(c), t2, q, sq_id, first, (sqe, head))
            } else {
                &&& final(c).pending_ios@ == old(c).pending_ios@
                &&& both_answered(
                    cqs,
                    t,
                    cqs2,
                    t2,
                    thr,
                    q,
                    sq_id,
                    first,
                    (sqe, head),
                    if !compare::same_blocks(first.0, sqe) || (there && !small) {
                        2
                    } else if there {
                        0x82
                    } else {
                        0xb
                    },
                )
            }
        }),
{
    laws::lemma_fields(sqe);
    let s = old(c).commands(old(ctx)@);
    let q = queue_for(*old(c), sq_id);
    let thr = old(c).irq_aggr_threshold;
    let first = old(c).pending_fused@[sq_id];
    laws::lemma_fields(first.0);
    let m = Commands { fused: s.fused.remove(sq_id), ..s };
    if !s.fused.contains_key(sq_id) {
        lemma_refused(s, thr, q, sq_id, sqe, head, 2);
        assert(s.fused.remove(sq_id) =~= s.fused);
    } else if !dispatch::fused_pair(first.0, sqe) || (is_served(
        old(c).namespaces@,
        first.0.nsid,
    ) && !dispatch::fused_supported(old(c).namespaces@[first.0.nsid], first.0.spec_nlb())) {
        lemma_pair_refused(m, thr, q, sq_id, first, (sqe, head), 2);
    } else {
        lemma_compare_started(
            *old(c),
            m,
            old(ctx)@,
            *final(c),
            final(ctx)@,
            q,
            sq_id,
            first,
            (sqe, head),
        );
    }
}

/// Any other fused command fails, and so does a command that comes where the second one of a
/// pair is due, together with the first one and after it. None of them is executed, and
/// nothing waits any more. Fused commands of the admin queue fail too, and leave alone what
/// waits.
pub proof fn law_misplaced_command_fails(
    c: &mut NvmeController,
    ctx: &mut DeviceCtx,
    sq_id: u16,
    head: u16,
    sqe: Sqe,
    r: Route,
)
    requires
        call_ensures(NvmeController::dispatch_sqe, (c, ctx, sq_id, head, sqe), r),
        if sq_id == 0 {
            laws::fuse_of(sqe) != 0
        } else {
            &&& !is_first(sqe)
            &&& laws::fuse_of(sqe) != 2
            &&& laws::fuse_of(sqe) != 0 || old(c).pending_fused@.contains_key(sq_id)
        },
        laws::all_in_order(old(c).cqs@),
    ensures
        r is Done,
        final(c).pending_ios@ == old(c).pending_ios@,
        final(c).pending_fused@ == (if sq_id == 0 {
            old(c).pending_fused@
        } else {
            old(c).pending_fused@.remove(sq_id)
        }),
        ({
            let q = queue_for(*old(c), sq_id);
            let thr = old(c).irq_aggr_threshold;
            let (cqs, t, cqs2, t2) = (old(c).cqs@, old(ctx)@, final(c).cqs@, final(ctx)@);
            if sq_id != 0 && old(c).pending_fused@.contains_key(sq_id) {
                both_answered(
                    cqs,
                    t,
                    cqs2,
                    t2,
                    thr,
                    q,
                    sq_id,
                    old(c).pending_fused@[sq_id],
                    (sqe, head),
                    2,
                )
            } else {
                laws::answered(
                    cqs,
                    t,
                    cqs2,
                    t2,
                    thr,
                    q,
                    laws::plain_answer(cqs, q, sq_id, head, laws::cid_of(sqe), 2),
                )
            }
        }),
{
    laws::lemma_fields(sqe);
    let s = old(c).commands(old(ctx)@);
    let q = queue_for(*old(c), sq_id);
    let thr = old(c).irq_aggr_threshold;
    if sq_id != 0 && s.fused.contains_key(sq_id) {
        let m = Commands { fused: s.fused.remove(sq_id), ..s };
        lemma_pair_refused(m, thr, q, sq_id, s.fused[sq_id], (sqe, head), 2);
    } else {
        lemma_refused(s, thr, q, sq_id, sqe, head, 2);
        assert(s.fused.remove(sq_id) =~= s.fused || sq_id == 0);
    }
}

/// Dispatching changes what waits for a second command, the transfers in flight and the
/// completion queues, and nothing else of the controller.
pub proof fn law_dispatch_leaves_the_rest_alone(
    c: &mut NvmeController,
    ctx: &mut DeviceCtx,
    sq_id: u16,
    head: u16,
    sqe: Sqe,
    r: Route,
)
    requires
        call_ensures(NvmeController::dispatch_sqe, (c, ctx, sq_id, head, sqe), r),
    ensures
        *final(c) == (NvmeController {
            pending_fused: final(c).pending_fused,
            pending_ios: final(c).pending_ios,
            cqs: final(c).cqs,
            ..*old(c)
        }),
{
}

/// A completion goes to the slot at the tail of its queue, and the host is interrupted where
/// the queue is the admin queue or enough completions wait; no other queue is touched.
pub proof fn law_completion_goes_to_the_tail(
    c: &mut NvmeController,
    ctx: &mut DeviceCtx,
    cq_id: u16,
    cqe: Cqe,
)
    requires
        call_ensures(NvmeController::post_cqe, (c, ctx, cq_id, cqe), ()),
        laws::all_in_order(old(c).cqs@),
    ensures
        laws::answered(
            old(c).cqs@,
            old(ctx)@,
            final(c).cqs@,
            final(ctx)@,
            old(c).irq_aggr_threshold,
            cq_id,
            laws::answer_of(cqe),
        ),
        laws::all_in_order(final(c).cqs@),
        *final(c) == (NvmeController { cqs: final(c).cqs, ..*old(c) }),
{
    laws::lemma_posted(old(c).link(old(ctx)@), old(c).irq_aggr_threshold, cq_id, cqe);
}

/// What a command ended with is posted, if it ended; one that still waits posts nothing.
pub proof fn law_ended_command_is_posted(
    c: &mut NvmeController,
    ctx: &mut DeviceCtx,
    cq_id: u16,
    cqe: Option<Cqe>,
)
    requires
        call_ensures(NvmeController::complete_command, (c, ctx, cq_id, cqe), ()),
        laws::all_in_order(old(c).cqs@),
    ensures
        match cqe {
            Some(e) => laws::answered(
                old(c).cqs@,
                old(ctx)@,
                final(c).cqs@,
                final(ctx)@,
                old(c).irq_aggr_threshold,
                cq_id,
                laws::answer_of(e),
            ),
            None => final(c).cqs@ == old(c).cqs@ && final(ctx)@ == old(ctx)@,
        },
        *final(c) == (NvmeController { cqs: final(c).cqs, ..*old(c) }),
{
    assert(final(c).link(final(ctx)@).cqs == final(c).cqs@);
    if let Some(e) = cqe {
        laws::lemma_posted(old(c).link(old(ctx)@), old(c).irq_aggr_threshold, cq_id, e);
    }
}

/// A completion for the admin queue goes to queue 0.
pub proof fn law_admin_completion_goes_to_queue_0(
    c: &mut NvmeController,
    ctx: &mut DeviceCtx,
    cqe: Cqe,
)
    requires
        call_ensures(NvmeController::nvme_post_cqe, (c, ctx, cqe), ()),
        laws::all_in_order(old(c).cqs@),
        old(c).cqs@.contains_key(0),
    ensures
        laws::one_posted(
            old(c).cqs@,
            old(ctx)@,
            final(c).cqs@,
            final(ctx)@,
            old(c).irq_aggr_threshold,
            0,
            laws::answer_of(cqe),
        ),
        *final(c) == (NvmeController { cqs: final(c).cqs, ..*old(c) }),
{
    laws::lemma_posted(old(c).link(old(ctx)@), old(c).irq_aggr_threshold, 0, cqe);
}

/// The admin queue interrupts for every completion, and any other queue once one more than
/// the threshold wait; the aggregation time makes no difference.
pub proof fn law_interrupt_by_count(
    cq_id: u16,
    pending: u32,
    aggr_thr: u8,
    time: u8,
    other_time: u8,
    r: bool,
    other: bool,
)
    requires
        call_ensures(post::should_fire_irq, (cq_id, pending, aggr_thr, time), r),
        call_ensures(post::should_fire_irq, (cq_id, pending, aggr_thr, other_time), other),
    ensures
        r == other,
        cq_id == 0 ==> r,
        cq_id != 0 && pending <= aggr_thr ==> !r,
        cq_id != 0 && pending == aggr_thr + 1 ==> r,
        cq_id != 0 && pending > aggr_thr ==> r,
{
}

/// The namespace of an I/O command is the one that it names; neither 0 nor the broadcast
/// value names one.
pub proof fn law_namespace_of_a_command(c: &NvmeController, nsid: u32, r: Option<&Namespace>, l: Option<u8>)
    requires
        call_ensures(NvmeController::ns, (c, nsid), r),
        call_ensures(NvmeController::ns_lbads, (c, nsid), l),
    ensures
        r is Some <==> is_served(c.namespaces@, nsid),
        r is Some ==> *r->0 == c.namespaces@[nsid],
        l is Some <==> c.namespaces@.contains_key(nsid),
        l is Some ==> l->0 == c.namespaces@[nsid].lbads,
{
}

} // verus!
