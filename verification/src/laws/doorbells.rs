//! Doorbells, their shadows, and fetching commands.
use vstd::prelude::*;

use crate::bytes;
use crate::cmd;
use crate::cmd::Sqe;
use crate::controller::ctx::{DeviceCtx, Event, Trace};
use crate::controller::device::DmaRoute;
use crate::controller::queues::Fetches;
use crate::controller::shadow;
use crate::controller::shadow::Shadow;
use crate::controller::{FetchCtx, NvmeController, ShadowPollCtx};
use crate::laws;
use crate::regs::{CompletionQueue, SubmissionQueue};

verus! {

/// The tail is a slot of the queue, the queue is no deeper than a queue can be, and every
/// slot has an address.
pub open spec fn ring_in_order(q: SubmissionQueue) -> bool {
    q.tail < q.size <= 65536 && q.base_gpa + (q.size - 1) * 64 <= u64::MAX
}

/// How many slots there are from the tail of `q` up to `new_tail`, going round at the end.
pub open spec fn slots_between(q: SubmissionQueue, new_tail: u32) -> int {
    if new_tail >= q.tail {
        new_tail - q.tail
    } else {
        q.size - q.tail + new_tail
    }
}

/// How many of them lie before the end of the queue.
pub open spec fn slots_to_end(q: SubmissionQueue, new_tail: u32) -> int {
    if slots_between(q, new_tail) < q.size - q.tail {
        slots_between(q, new_tail)
    } else {
        q.size - q.tail
    }
}

/// And how many from its start on.
pub open spec fn slots_from_start(q: SubmissionQueue, new_tail: u32) -> int {
    slots_between(q, new_tail) - slots_to_end(q, new_tail)
}

/// How many reads it takes to fetch them.
pub open spec fn fetch_count(q: SubmissionQueue, new_tail: u32) -> int {
    if slots_between(q, new_tail) == 0 {
        0
    } else if slots_from_start(q, new_tail) == 0 {
        1
    } else {
        2
    }
}

/// The token of transfer number `n` that is asked for after `t`.
pub open spec fn token_number(t: Trace, n: int) -> u64 {
    ((t.next_token + n) % 0x1_0000_0000_0000_0000) as u64
}

/// The link was asked, before anything else, for all entries from the tail of `q`, number
/// `sq_id`, up to `new_tail`, those before the end of the queue first, and each read is
/// remembered as the slots that it brings.
pub open spec fn entries_asked_for(
    q: SubmissionQueue,
    sq_id: u16,
    new_tail: u32,
    fetches: Map<u64, FetchCtx>,
    t: Trace,
    fetches_after: Map<u64, FetchCtx>,
    t_after: Trace,
) -> bool {
    let k = fetch_count(q, new_tail);
    let a = slots_to_end(q, new_tail);
    let b = slots_from_start(q, new_tail);
    let (tok0, tok1) = (token_number(t, 0), token_number(t, 1));
    &&& k >= 1 ==> laws::request(t, t_after, 0) == (Event::DmaRead {
        token: tok0,
        gpa: (q.base_gpa + 64 * q.tail) as u64,
        len: (64 * a) as u32,
    })
    &&& k == 2 ==> laws::request(t, t_after, 1) == (Event::DmaRead {
        token: tok1,
        gpa: q.base_gpa,
        len: (64 * b) as u32,
    })
    &&& k == 0 ==> fetches_after == fetches
    &&& k == 1 ==> fetches_after == fetches.insert(
        tok0,
        FetchCtx { sq_id, count: a as u32, start_slot: q.tail },
    )
    &&& k == 2 ==> fetches_after == fetches.insert(
        tok0,
        FetchCtx { sq_id, count: a as u32, start_slot: q.tail },
    ).insert(tok1, FetchCtx { sq_id, count: b as u32, start_slot: 0 })
}

proof fn lemma_up_to(f: Fetches, sq_id: u16, q: SubmissionQueue, new_tail: u32)
    requires
        ring_in_order(q),
        new_tail < q.size,
    ensures
        ({
            let g = f.up_to(sq_id, q, new_tail);
            &&& laws::more_requests(f.trace, g.trace, fetch_count(q, new_tail))
            &&& g.trace.next_token == token_number(f.trace, fetch_count(q, new_tail))
            &&& entries_asked_for(
                q,
                sq_id,
                new_tail,
                f.pending,
                f.trace,
                g.pending,
                g.trace,
            )
        }),
        slots_between(q, new_tail) <= 65535,
{
}

/// Nothing has changed but what doorbells and fetches change.
pub open spec fn only_doorbells_changed(before: NvmeController, after: NvmeController) -> bool {
    after == (NvmeController {
        csts: after.csts,
        sqs: after.sqs,
        cqs: after.cqs,
        pending_fetches: after.pending_fetches,
        pending_shadow_polls: after.pending_shadow_polls,
        pending_eventidx_writes: after.pending_eventidx_writes,
        shadow_poll_inflight: after.shadow_poll_inflight,
        shadow_ring_pending: after.shadow_ring_pending,
        last_mmio_sq_doorbell: after.last_mmio_sq_doorbell,
        last_eventidx_sq: after.last_eventidx_sq,
        dbbuf_shadow_ahead_count: after.dbbuf_shadow_ahead_count,
        doorbell_shadow_gpa: after.doorbell_shadow_gpa,
        doorbell_event_idx_gpa: after.doorbell_event_idx_gpa,
        ..before
    })
}

/// The queues, the fetches and the status are the same.
pub open spec fn same_queues(before: NvmeController, after: NvmeController) -> bool {
    &&& after.csts == before.csts
    &&& after.sqs@ == before.sqs@
    &&& after.cqs@ == before.cqs@
    &&& after.pending_fetches@ == before.pending_fetches@
}

/// What is known of the host's own buffers is the same.
pub open spec fn same_buffers(before: NvmeController, after: NvmeController) -> bool {
    &&& after.doorbell_shadow_gpa == before.doorbell_shadow_gpa
    &&& after.doorbell_event_idx_gpa == before.doorbell_event_idx_gpa
}

/// The chains of reads are the same.
pub open spec fn same_chains(before: NvmeController, after: NvmeController) -> bool {
    &&& after.pending_shadow_polls@ == before.pending_shadow_polls@
    &&& after.shadow_poll_inflight@ == before.shadow_poll_inflight@
    &&& after.shadow_ring_pending@ == before.shadow_ring_pending@
}

/// What was written to registers and event indices is the same.
pub open spec fn same_notes(before: NvmeController, after: NvmeController) -> bool {
    &&& after.pending_eventidx_writes@ == before.pending_eventidx_writes@
    &&& after.last_mmio_sq_doorbell@ == before.last_mmio_sq_doorbell@
    &&& after.last_eventidx_sq@ == before.last_eventidx_sq@
    &&& after.dbbuf_shadow_ahead_count == before.dbbuf_shadow_ahead_count
}

/// Nothing at all has changed.
pub open spec fn nothing_changed(before: NvmeController, t: Trace, after: NvmeController, t_after: Trace) -> bool {
    &&& only_doorbells_changed(before, after)
    &&& same_queues(before, after)
    &&& same_buffers(before, after)
    &&& same_chains(before, after)
    &&& same_notes(before, after)
    &&& t_after == t
}

/// The host keeps shadows of its doorbells.
pub open spec fn shadowed(c: NvmeController) -> bool {
    c.doorbell_shadow_gpa != 0 && c.doorbell_event_idx_gpa != 0
}

/// The controller is ready, and was not shut down.
pub open spec fn running(c: NvmeController) -> bool {
    c.csts & 1 != 0 && c.csts & 0xc != 8
}

pub(crate) proof fn lemma_parts(c: NvmeController, t: Trace, s: Shadow)
    requires
        c.shadow(t) == s,
    ensures
        c.csts == s.csts,
        c.sqs@ == s.sqs,
        c.cqs@ == s.cqs,
        c.pending_fetches@ == s.fetches,
        c.doorbell_shadow_gpa == s.shadow_gpa,
        c.doorbell_event_idx_gpa == s.event_idx_gpa,
        c.pending_shadow_polls@ == s.polls,
        c.pending_eventidx_writes@ == s.writes,
        c.shadow_poll_inflight@ == s.inflight,
        c.shadow_ring_pending@ == s.rung,
        c.last_mmio_sq_doorbell@ == s.mmio,
        c.last_eventidx_sq@ == s.event_idx,
        c.dbbuf_shadow_ahead_count == s.ahead,
        t == s.trace,
{
    assert(c.shadow(t).csts == s.csts);
    assert(c.shadow(t).trace == s.trace);
}

/// The doorbell register of the admin queue, or of any queue of a host that keeps no
/// shadows, sets the tail, and all new entries are asked for. A tail that is no slot is
/// fatal; a queue that is not there changes nothing.
pub proof fn law_register_moves_the_tail(
    c: &mut NvmeController,
    ctx: &mut DeviceCtx,
    sq_id: u16,
    new_tail: u32,
)
    requires
        call_ensures(NvmeController::on_sq_tail_doorbell, (c, ctx, sq_id, new_tail), ()),
        running(*old(c)),
        sq_id == 0 || !shadowed(*old(c)),
        old(c).sqs@.contains_key(sq_id) ==> ring_in_order(old(c).sqs@[sq_id]),
    ensures
        ({
            let q = old(c).sqs@[sq_id];
            let there = old(c).sqs@.contains_key(sq_id);
            if there && new_tail < q.size {
                &&& final(c).sqs@ == old(c).sqs@.insert(
                    sq_id,
                    SubmissionQueue { tail: new_tail, ..q },
                )
                &&& laws::more_requests(old(ctx)@, final(ctx)@, fetch_count(q, new_tail))
                &&& final(ctx)@.next_token == token_number(old(ctx)@, fetch_count(q, new_tail))
                &&& entries_asked_for(
                    q,
                    sq_id,
                    new_tail,
                    old(c).pending_fetches@,
                    old(ctx)@,
                    final(c).pending_fetches@,
                    final(ctx)@,
                )
                &&& final(c).csts == old(c).csts
            } else {
                &&& final(c).sqs@ == old(c).sqs@
                &&& final(c).pending_fetches@ == old(c).pending_fetches@
                &&& final(ctx)@ == old(ctx)@
                &&& final(c).csts == (if there {
                    old(c).csts | 2
                } else {
                    old(c).csts
                })
            }
        }),
        final(c).cqs@ == old(c).cqs@,
        same_buffers(*old(c), *final(c)),
        same_chains(*old(c), *final(c)),
        same_notes(*old(c), *final(c)),
        only_doorbells_changed(*old(c), *final(c)),
{
    let s = old(c).shadow(old(ctx)@);
    lemma_parts(*final(c), final(ctx)@, s.sq_doorbell(sq_id, new_tail));
    if s.sqs.contains_key(sq_id) && new_tail < s.sqs[sq_id].size {
        lemma_up_to(
            Fetches { pending: s.fetches, trace: s.trace },
            sq_id,
            s.sqs[sq_id],
            new_tail,
        );
    }
}

/// A doorbell of a controller that is not running is ignored.
pub proof fn law_doorbell_needs_a_running_controller(
    c: &mut NvmeController,
    ctx: &mut DeviceCtx,
    sq_id: u16,
    new_tail: u32,
)
    requires
        call_ensures(NvmeController::on_sq_tail_doorbell, (c, ctx, sq_id, new_tail), ()),
        !running(*old(c)),
    ensures
        nothing_changed(*old(c), old(ctx)@, *final(c), final(ctx)@),
{
    lemma_parts(*final(c), final(ctx)@, old(c).shadow(old(ctx)@));
}

/// The number of a doorbell: two for each queue, the one of the submission queue first.
pub open spec fn doorbell_number(qid: u16, is_cq: bool) -> u32 {
    if is_cq {
        (2 * qid + 1) as u32
    } else {
        (2 * qid) as u32
    }
}

/// Where the entry of a doorbell is in a buffer at `base`: four bytes for each doorbell.
pub open spec fn entry_at(base: u64, qid: u16, is_cq: bool) -> int {
    base + 4 * doorbell_number(qid, is_cq)
}

/// The shadow of a doorbell of `before` was asked for, as request number `n` after `t`.
pub open spec fn shadow_asked_for(
    before: NvmeController,
    t: Trace,
    t_after: Trace,
    n: int,
    qid: u16,
    is_cq: bool,
) -> bool {
    laws::request(t, t_after, n) == (Event::DmaRead {
        token: token_number(t, n),
        gpa: entry_at(before.doorbell_shadow_gpa, qid, is_cq) as u64,
        len: 4,
    })
}

/// A doorbell was rung: its shadow is asked for, or, where that has already happened, the
/// ring is remembered.
pub open spec fn ring_heard(
    before: NvmeController,
    t: Trace,
    after: NvmeController,
    t_after: Trace,
    qid: u16,
    is_cq: bool,
) -> bool {
    let key = doorbell_number(qid, is_cq);
    if before.shadow_poll_inflight@.contains(key) {
        &&& after.shadow_ring_pending@ == before.shadow_ring_pending@.insert(key)
        &&& after.shadow_poll_inflight@ == before.shadow_poll_inflight@
        &&& after.pending_shadow_polls@ == before.pending_shadow_polls@
        &&& t_after == t
    } else {
        &&& after.shadow_ring_pending@ == before.shadow_ring_pending@
        &&& after.shadow_poll_inflight@ == before.shadow_poll_inflight@.insert(key)
        &&& after.pending_shadow_polls@ == before.pending_shadow_polls@.insert(
            t.next_token,
            ShadowPollCtx { qid, is_cq, iters: 0 },
        )
        &&& laws::more_requests(t, t_after, 1)
        &&& t_after.next_token == token_number(t, 1)
        &&& shadow_asked_for(before, t, t_after, 0, qid, is_cq)
    }
}

/// With shadows, a ring of an I/O submission queue only tells that there is something to
/// look at: no tail moves and no entry is asked for, the shadow is, and the value is noted.
pub proof fn law_ring_looks_at_the_shadow(
    c: &mut NvmeController,
    ctx: &mut DeviceCtx,
    sq_id: u16,
    value: u32,
)
    requires
        call_ensures(NvmeController::on_sq_tail_doorbell, (c, ctx, sq_id, value), ()),
        running(*old(c)),
        sq_id != 0,
        shadowed(*old(c)),
    ensures
        old(c).sqs@.contains_key(sq_id) ==> {
            &&& ring_heard(*old(c), old(ctx)@, *final(c), final(ctx)@, sq_id, false)
            &&& final(c).last_mmio_sq_doorbell@ == old(c).last_mmio_sq_doorbell@.insert(
                sq_id,
                value,
            )
            &&& final(c).pending_eventidx_writes@ == old(c).pending_eventidx_writes@
            &&& final(c).last_eventidx_sq@ == old(c).last_eventidx_sq@
            &&& final(c).dbbuf_shadow_ahead_count == old(c).dbbuf_shadow_ahead_count
            &&& same_queues(*old(c), *final(c))
            &&& same_buffers(*old(c), *final(c))
            &&& only_doorbells_changed(*old(c), *final(c))
        },
        !old(c).sqs@.contains_key(sq_id) ==> nothing_changed(
            *old(c),
            old(ctx)@,
            *final(c),
            final(ctx)@,
        ),
{
    let s = old(c).shadow(old(ctx)@);
    lemma_parts(*final(c), final(ctx)@, s.sq_doorbell(sq_id, value));
}

/// A doorbell of a completion queue sets its head; with shadows, and but for the admin
/// queue, its shadow is looked at too.
pub proof fn law_head_doorbell_sets_the_head(
    c: &mut NvmeController,
    ctx: &mut DeviceCtx,
    cq_id: u16,
    new_head: u32,
)
    requires
        call_ensures(NvmeController::on_cq_head_doorbell, (c, ctx, cq_id, new_head), ()),
    ensures
        !old(c).cqs@.contains_key(cq_id) ==> nothing_changed(
            *old(c),
            old(ctx)@,
            *final(c),
            final(ctx)@,
        ),
        old(c).cqs@.contains_key(cq_id) ==> {
            &&& final(c).cqs@ == old(c).cqs@.insert(
                cq_id,
                CompletionQueue { head: new_head, ..old(c).cqs@[cq_id] },
            )
            &&& final(c).sqs@ == old(c).sqs@
            &&& final(c).csts == old(c).csts
            &&& final(c).pending_fetches@ == old(c).pending_fetches@
            &&& same_buffers(*old(c), *final(c))
            &&& same_notes(*old(c), *final(c))
            &&& only_doorbells_changed(*old(c), *final(c))
            &&& if shadowed(*old(c)) && cq_id != 0 {
                ring_heard(*old(c), old(ctx)@, *final(c), final(ctx)@, cq_id, true)
            } else {
                same_chains(*old(c), *final(c)) && final(ctx)@ == old(ctx)@
            }
        },
{
    let s = old(c).shadow(old(ctx)@);
    lemma_parts(*final(c), final(ctx)@, s.cq_doorbell(cq_id, new_head));
}

/// Looking at a shadow asks for it once, however often: only I/O queues of a host that keeps
/// shadows have one.
pub proof fn law_look_asks_for_the_shadow(
    c: &mut NvmeController,
    ctx: &mut DeviceCtx,
    qid: u16,
    is_cq: bool,
)
    requires
        is_cq ==> call_ensures(NvmeController::start_shadow_cq_poll, (c, ctx, qid), ()),
        !is_cq ==> call_ensures(NvmeController::start_shadow_sq_poll, (c, ctx, qid), ()),
    ensures
        same_queues(*old(c), *final(c)),
        same_buffers(*old(c), *final(c)),
        same_notes(*old(c), *final(c)),
        only_doorbells_changed(*old(c), *final(c)),
        if shadowed(*old(c)) && qid != 0 {
            ring_heard(*old(c), old(ctx)@, *final(c), final(ctx)@, qid, is_cq)
        } else {
            same_chains(*old(c), *final(c)) && final(ctx)@ == old(ctx)@
        },
{
    let s = old(c).shadow(old(ctx)@);
    lemma_parts(*final(c), final(ctx)@, s.rung_at(qid, is_cq));
}

/// The chain of a doorbell is over, and no ring of it is outstanding.
pub open spec fn chain_over(
    before: NvmeController,
    polls: Map<u64, ShadowPollCtx>,
    after: NvmeController,
    key: u32,
) -> bool {
    &&& after.shadow_poll_inflight@ == before.shadow_poll_inflight@.remove(key)
    &&& after.shadow_ring_pending@ == before.shadow_ring_pending@.remove(key)
    &&& after.pending_shadow_polls@ == polls
}

/// The chain of submission queue `qid` goes on: its shadow is asked for once more, as request
/// number `n` and the last one. A chain of 65536 reads is fatal, and over.
pub open spec fn chain_goes_on(
    before: NvmeController,
    polls: Map<u64, ShadowPollCtx>,
    t: Trace,
    after: NvmeController,
    t_after: Trace,
    n: int,
    qid: u16,
    iters: u32,
) -> bool {
    if iters + 1 < 65536 {
        &&& laws::more_requests(t, t_after, n + 1)
        &&& t_after.next_token == token_number(t, n + 1)
        &&& shadow_asked_for(before, t, t_after, n, qid, false)
        &&& after.pending_shadow_polls@ == polls.insert(
            token_number(t, n),
            ShadowPollCtx { qid, is_cq: false, iters: (iters + 1) as u32 },
        )
        &&& after.shadow_poll_inflight@ == before.shadow_poll_inflight@
        &&& after.csts == before.csts
    } else {
        &&& laws::more_requests(t, t_after, n)
        &&& t_after.next_token == token_number(t, n)
        &&& after.pending_shadow_polls@ == polls
        &&& after.shadow_poll_inflight@ == before.shadow_poll_inflight@.remove(
            doorbell_number(qid, false),
        )
        &&& after.csts == before.csts | 2
    }
}

/// The event index of a doorbell was told to the host, as request number `n` after `t`.
pub open spec fn event_index_told(
    before: NvmeController,
    t: Trace,
    after: NvmeController,
    t_after: Trace,
    n: int,
    qid: u16,
    is_cq: bool,
    value: u32,
) -> bool {
    let w = laws::request(t, t_after, n);
    &&& w is DmaWrite
    &&& w->DmaWrite_token == token_number(t, n)
    &&& w->DmaWrite_gpa == entry_at(before.doorbell_event_idx_gpa, qid, is_cq)
    &&& w->DmaWrite_data.len() == 4
    &&& laws::four_bytes(w->DmaWrite_data, 0) == value
    &&& after.pending_eventidx_writes@ == before.pending_eventidx_writes@.insert(
        token_number(t, n),
    )
}

/// The shadow of the tail of queue `qid` was found to be `shadow`, in a chain of `iters`
/// reads before, while the looks in `polls` were in flight. A tail that is new is taken: its entries are asked for, the host is told,
/// and the chain goes on. A tail that is not new ends the chain, unless a ring came
/// meanwhile; the host is told of it once. A tail that is no slot is fatal, and ends the
/// chain; so does a queue that is gone.
pub open spec fn tail_found(
    before: NvmeController,
    polls: Map<u64, ShadowPollCtx>,
    t: Trace,
    after: NvmeController,
    t_after: Trace,
    qid: u16,
    shadow: u32,
    iters: u32,
) -> bool {
    let q = before.sqs@[qid];
    let key = doorbell_number(qid, false);
    let mmio = before.last_mmio_sq_doorbell@;
    let told = before.last_eventidx_sq@;
    &&& after.cqs@ == before.cqs@
    &&& after.last_mmio_sq_doorbell@ == mmio
    &&& same_buffers(before, after)
    &&& only_doorbells_changed(before, after)
    &&& if !before.sqs@.contains_key(qid) || shadow >= q.size {
        &&& chain_over(before, polls, after, key)
        &&& same_notes(before, after)
        &&& after.sqs@ == before.sqs@
        &&& after.pending_fetches@ == before.pending_fetches@
        &&& t_after == t
        &&& after.csts == (if before.sqs@.contains_key(qid) {
            before.csts | 2
        } else {
            before.csts
        })
    } else if shadow != q.tail {
        let k = fetch_count(q, shadow);
        &&& after.sqs@ == before.sqs@.insert(qid, SubmissionQueue { tail: shadow, ..q })
        &&& entries_asked_for(
            q,
            qid,
            shadow,
            before.pending_fetches@,
            t,
            after.pending_fetches@,
            t_after,
        )
        &&& event_index_told(before, t, after, t_after, k, qid, false, shadow)
        &&& after.last_eventidx_sq@ == told.insert(qid, shadow)
        &&& after.dbbuf_shadow_ahead_count == before.dbbuf_shadow_ahead_count + (if mmio.contains_key(
            qid,
        ) && mmio[qid] != shadow {
            1int
        } else {
            0int
        })
        &&& chain_goes_on(before, polls, t, after, t_after, k + 1, qid, iters)
        &&& after.shadow_ring_pending@ == (if iters + 1 < 65536 {
            before.shadow_ring_pending@
        } else {
            before.shadow_ring_pending@.remove(key)
        })
    } else {
        let news = !(told.contains_key(qid) && told[qid] == shadow);
        let k = if news {
            1int
        } else {
            0int
        };
        &&& after.sqs@ == before.sqs@
        &&& after.pending_fetches@ == before.pending_fetches@
        &&& after.dbbuf_shadow_ahead_count == before.dbbuf_shadow_ahead_count
        &&& after.shadow_ring_pending@ == before.shadow_ring_pending@.remove(key)
        &&& if news {
            &&& event_index_told(before, t, after, t_after, 0, qid, false, shadow)
            &&& after.last_eventidx_sq@ == told.insert(qid, shadow)
        } else {
            &&& after.pending_eventidx_writes@ == before.pending_eventidx_writes@
            &&& after.last_eventidx_sq@ == told
        }
        &&& if before.shadow_ring_pending@.contains(key) {
            chain_goes_on(before, polls, t, after, t_after, k, qid, iters)
        } else {
            &&& laws::more_requests(t, t_after, k)
            &&& t_after.next_token == token_number(t, k)
            &&& after.pending_shadow_polls@ == polls
            &&& after.shadow_poll_inflight@ == before.shadow_poll_inflight@.remove(key)
            &&& after.csts == before.csts
        }
    }
}

/// There is room for a tail of queue `qid` that reads `shadow`.
pub open spec fn tail_fits(c: NvmeController, qid: u16) -> bool {
    &&& c.sqs@.contains_key(qid) ==> ring_in_order(c.sqs@[qid])
    &&& c.dbbuf_shadow_ahead_count < u64::MAX
    &&& c.doorbell_event_idx_gpa + 8 * qid <= u64::MAX
}

proof fn lemma_tail_found(
    before: NvmeController,
    polls: Map<u64, ShadowPollCtx>,
    t: Trace,
    after: NvmeController,
    t_after: Trace,
    qid: u16,
    shadow: u32,
    iters: u32,
)
    requires
        after.shadow(t_after) == (Shadow { polls, ..before.shadow(t) }).sq_shadow_read(qid, shadow, iters),
        only_doorbells_changed(before, after),
        tail_fits(before, qid),
    ensures
        tail_found(before, polls, t, after, t_after, qid, shadow, iters),
{
    let s = Shadow { polls, ..before.shadow(t) };
    lemma_parts(after, t_after, s.sq_shadow_read(qid, shadow, iters));
    laws::lemma_bytes_of(shadow);
    let key = doorbell_number(qid, false);
    assert(shadow::doorbell_key(qid, false) == key);
    if s.sqs.contains_key(qid) && shadow < s.sqs[qid].size {
        lemma_up_to(Fetches { pending: s.fetches, trace: s.trace }, qid, s.sqs[qid], shadow);
        if shadow == s.sqs[qid].tail {
            if !s.rung.contains(key) {
                assert(s.rung.remove(key) =~= s.rung);
            } else {
                assert(s.rung.remove(key).remove(key) =~= s.rung.remove(key));
            }
        }
    }
}

/// See `tail_found`.
pub proof fn law_shadow_of_a_tail(
    c: &mut NvmeController,
    ctx: &mut DeviceCtx,
    qid: u16,
    shadow: u32,
    iters: u32,
)
    requires
        call_ensures(NvmeController::handle_shadow_sq, (c, ctx, qid, shadow, iters), ()),
        tail_fits(*old(c), qid),
    ensures
        tail_found(*old(c), old(c).pending_shadow_polls@, old(ctx)@, *final(c), final(ctx)@, qid, shadow, iters),
{
    assert((Shadow { polls: old(c).pending_shadow_polls@, ..old(c).shadow(old(ctx)@) }) =~= old(c).shadow(old(ctx)@));
    lemma_tail_found(*old(c), old(c).pending_shadow_polls@, old(ctx)@, *final(c), final(ctx)@, qid, shadow, iters);
}

/// The shadow of the head of queue `qid` was found to be `shadow`: a slot of the queue is its
/// head from now on, and the host is told; then the chain is over, unless a ring came
/// meanwhile. Anything else ends the chain.
pub open spec fn head_found(
    before: NvmeController,
    polls: Map<u64, ShadowPollCtx>,
    t: Trace,
    after: NvmeController,
    t_after: Trace,
    qid: u16,
    shadow: u32,
) -> bool {
    let q = before.cqs@[qid];
    let key = doorbell_number(qid, true);
    &&& after.csts == before.csts
    &&& after.sqs@ == before.sqs@
    &&& after.pending_fetches@ == before.pending_fetches@
    &&& after.last_mmio_sq_doorbell@ == before.last_mmio_sq_doorbell@
    &&& after.last_eventidx_sq@ == before.last_eventidx_sq@
    &&& after.dbbuf_shadow_ahead_count == before.dbbuf_shadow_ahead_count
    &&& same_buffers(before, after)
    &&& only_doorbells_changed(before, after)
    &&& after.shadow_ring_pending@ == before.shadow_ring_pending@.remove(key)
    &&& if !before.cqs@.contains_key(qid) || shadow >= q.size {
        &&& chain_over(before, polls, after, key)
        &&& after.cqs@ == before.cqs@
        &&& after.pending_eventidx_writes@ == before.pending_eventidx_writes@
        &&& t_after == t
    } else {
        &&& after.cqs@ == before.cqs@.insert(qid, CompletionQueue { head: shadow, ..q })
        &&& event_index_told(before, t, after, t_after, 0, qid, true, shadow)
        &&& if before.shadow_ring_pending@.contains(key) {
            &&& laws::more_requests(t, t_after, 2)
            &&& t_after.next_token == token_number(t, 2)
            &&& shadow_asked_for(before, t, t_after, 1, qid, true)
            &&& after.pending_shadow_polls@ == polls.insert(
                token_number(t, 1),
                ShadowPollCtx { qid, is_cq: true, iters: 0 },
            )
            &&& after.shadow_poll_inflight@ == before.shadow_poll_inflight@
        } else {
            &&& laws::more_requests(t, t_after, 1)
            &&& t_after.next_token == token_number(t, 1)
            &&& after.pending_shadow_polls@ == polls
            &&& after.shadow_poll_inflight@ == before.shadow_poll_inflight@.remove(key)
        }
    }
}

proof fn lemma_head_found(
    before: NvmeController,
    polls: Map<u64, ShadowPollCtx>,
    t: Trace,
    after: NvmeController,
    t_after: Trace,
    qid: u16,
    shadow: u32,
)
    requires
        after.shadow(t_after) == (Shadow { polls, ..before.shadow(t) }).cq_shadow_read(qid, shadow),
        only_doorbells_changed(before, after),
        before.doorbell_event_idx_gpa + 8 * qid + 4 <= u64::MAX,
    ensures
        head_found(before, polls, t, after, t_after, qid, shadow),
{
    let s = Shadow { polls, ..before.shadow(t) };
    lemma_parts(after, t_after, s.cq_shadow_read(qid, shadow));
    laws::lemma_bytes_of(shadow);
    let key = doorbell_number(qid, true);
    assert(shadow::doorbell_key(qid, true) == key);
    if !s.rung.contains(key) {
        assert(s.rung.remove(key) =~= s.rung);
    }
}

/// See `head_found`.
pub proof fn law_shadow_of_a_head(
    c: &mut NvmeController,
    ctx: &mut DeviceCtx,
    qid: u16,
    shadow: u32,
)
    requires
        call_ensures(NvmeController::handle_shadow_cq, (c, ctx, qid, shadow), ()),
        old(c).doorbell_event_idx_gpa + 8 * qid + 4 <= u64::MAX,
    ensures
        head_found(*old(c), old(c).pending_shadow_polls@, old(ctx)@, *final(c), final(ctx)@, qid, shadow),
{
    assert((Shadow { polls: old(c).pending_shadow_polls@, ..old(c).shadow(old(ctx)@) }) =~= old(c).shadow(old(ctx)@));
    lemma_head_found(*old(c), old(c).pending_shadow_polls@, old(ctx)@, *final(c), final(ctx)@, qid, shadow);
}

/// A read of a shadow ended: what it brought, a number of four bytes, is the tail or the head
/// that was found. A read that failed, or brought less, ends the chain.
pub open spec fn look_ended(
    before: NvmeController,
    polls: Map<u64, ShadowPollCtx>,
    t: Trace,
    after: NvmeController,
    t_after: Trace,
    p: ShadowPollCtx,
    ok: bool,
    data: Seq<u8>,
) -> bool {
    if !ok || data.len() < 4 {
        &&& chain_over(before, polls, after, doorbell_number(p.qid, p.is_cq))
        &&& same_queues(before, after)
        &&& same_buffers(before, after)
        &&& same_notes(before, after)
        &&& only_doorbells_changed(before, after)
        &&& t_after == t
    } else if p.is_cq {
        head_found(before, polls, t, after, t_after, p.qid, laws::four_bytes(data, 0) as u32)
    } else {
        tail_found(
            before,
            polls,
            t,
            after,
            t_after,
            p.qid,
            laws::four_bytes(data, 0) as u32,
            p.iters,
        )
    }
}

pub(crate) proof fn lemma_four_bytes(b: Seq<u8>, at: int)
    ensures
        bytes::le32_at(b, at) == laws::four_bytes(b, at),
{
    let (p, q, r, s) = (b[at], b[at + 1], b[at + 2], b[at + 3]);
    assert((p as u32) | ((q as u32) << 8) | ((r as u32) << 16) | ((s as u32) << 24) == p + 0x100 * q
        + 0x1_0000 * r + 0x100_0000 * s) by (bit_vector);
}

proof fn lemma_look_ended(
    before: NvmeController,
    polls: Map<u64, ShadowPollCtx>,
    t: Trace,
    after: NvmeController,
    t_after: Trace,
    p: ShadowPollCtx,
    ok: bool,
    data: Seq<u8>,
)
    requires
        after.shadow(t_after) == (Shadow { polls, ..before.shadow(t) }).poll_ended(p, ok, data),
        only_doorbells_changed(before, after),
        tail_fits(before, p.qid),
        before.doorbell_event_idx_gpa + 8 * p.qid + 4 <= u64::MAX,
    ensures
        look_ended(before, polls, t, after, t_after, p, ok, data),
{
    lemma_four_bytes(data, 0);
    let s = Shadow { polls, ..before.shadow(t) };
    lemma_parts(after, t_after, s.poll_ended(p, ok, data));
    assert(shadow::doorbell_key(p.qid, p.is_cq) == doorbell_number(p.qid, p.is_cq));
    if ok && data.len() >= 4 {
        let v = bytes::le32_at(data, 0);
        if p.is_cq {
            lemma_head_found(before, polls, t, after, t_after, p.qid, v);
        } else {
            lemma_tail_found(before, polls, t, after, t_after, p.qid, v, p.iters);
        }
    }
}

/// See `look_ended`.
pub proof fn law_end_of_a_look(
    c: &mut NvmeController,
    ctx: &mut DeviceCtx,
    p: ShadowPollCtx,
    ok: bool,
    data: Vec<u8>,
)
    requires
        call_ensures(
            NvmeController::handle_shadow_poll_complete,
            (c, ctx, p, ok, data),
            (),
        ),
        tail_fits(*old(c), p.qid),
        old(c).doorbell_event_idx_gpa + 8 * p.qid + 4 <= u64::MAX,
    ensures
        look_ended(*old(c), old(c).pending_shadow_polls@, old(ctx)@, *final(c), final(ctx)@, p, ok, data@),
{
    assert((Shadow { polls: old(c).pending_shadow_polls@, ..old(c).shadow(old(ctx)@) }) =~= old(c).shadow(old(ctx)@));
    lemma_look_ended(*old(c), old(c).pending_shadow_polls@, old(ctx)@, *final(c), final(ctx)@, p, ok, data@);
}

/// Turning shadows off forgets the buffers, the chains and all that was noted; queues and
/// fetches stay.
pub proof fn law_shadows_off(c: &mut NvmeController, active: bool)
    requires
        call_ensures(NvmeController::clear_dbbuf, (c,), ()),
        call_ensures(NvmeController::dbbuf_active, (final(c),), active),
    ensures
        !active,
        final(c).doorbell_shadow_gpa == 0,
        final(c).doorbell_event_idx_gpa == 0,
        final(c).pending_shadow_polls@ == Map::<u64, ShadowPollCtx>::empty(),
        final(c).pending_eventidx_writes@ == Set::<u64>::empty(),
        final(c).shadow_poll_inflight@ == Set::<u32>::empty(),
        final(c).shadow_ring_pending@ == Set::<u32>::empty(),
        final(c).last_mmio_sq_doorbell@ == Map::<u16, u32>::empty(),
        final(c).last_eventidx_sq@ == Map::<u16, u32>::empty(),
        final(c).dbbuf_shadow_ahead_count == old(c).dbbuf_shadow_ahead_count,
        same_queues(*old(c), *final(c)),
        only_doorbells_changed(*old(c), *final(c)),
{
    let t = Trace { now: 0, next_token: 0, events: Seq::empty() };
    lemma_parts(*final(c), t, old(c).shadow(t).cleared());
    assert(active == final(c).shadow(t).active());
}

/// A host keeps shadows where it named both buffers.
pub proof fn law_both_buffers_make_shadows(c: &NvmeController, active: bool)
    requires
        call_ensures(NvmeController::dbbuf_active, (c,), active),
    ensures
        active == shadowed(*c),
{
    let t = Trace { now: 0, next_token: 0, events: Seq::empty() };
    assert(active == c.shadow(t).active());
}

/// Doorbells are numbered two for each queue.
pub proof fn law_doorbell_numbers(qid: u16, is_cq: bool, r: u32)
    requires
        call_ensures(shadow::poll_key, (qid, is_cq), r),
    ensures
        r == doorbell_number(qid, is_cq),
{
}

/// Moving a tail asks for all new entries; the result tells whether the tail is a slot of a
/// queue that is there, and a tail that is none is fatal.
pub proof fn law_tail_is_moved(
    c: &mut NvmeController,
    ctx: &mut DeviceCtx,
    sq_id: u16,
    new_tail: u32,
    r: bool,
)
    requires
        call_ensures(NvmeController::advance_sq_to_tail, (c, ctx, sq_id, new_tail), r),
        old(c).sqs@.contains_key(sq_id) ==> ring_in_order(old(c).sqs@[sq_id]),
    ensures
        ({
            let q = old(c).sqs@[sq_id];
            let there = old(c).sqs@.contains_key(sq_id);
            &&& r <==> there && new_tail < q.size
            &&& r ==> {
                &&& final(c).sqs@ == old(c).sqs@.insert(
                    sq_id,
                    SubmissionQueue { tail: new_tail, ..q },
                )
                &&& laws::more_requests(old(ctx)@, final(ctx)@, fetch_count(q, new_tail))
                &&& final(ctx)@.next_token == token_number(old(ctx)@, fetch_count(q, new_tail))
                &&& entries_asked_for(
                    q,
                    sq_id,
                    new_tail,
                    old(c).pending_fetches@,
                    old(ctx)@,
                    final(c).pending_fetches@,
                    final(ctx)@,
                )
                &&& final(c).csts == old(c).csts
            }
            &&& !r ==> {
                &&& final(c).sqs@ == old(c).sqs@
                &&& final(c).pending_fetches@ == old(c).pending_fetches@
                &&& final(ctx)@ == old(ctx)@
                &&& final(c).csts == (if there {
                    old(c).csts | 2
                } else {
                    old(c).csts
                })
            }
        }),
        *final(c) == (NvmeController {
            sqs: final(c).sqs,
            pending_fetches: final(c).pending_fetches,
            csts: final(c).csts,
            ..*old(c)
        }),
{
    let f = old(c).fetches(old(ctx)@);
    let g = final(c).fetches(final(ctx)@);
    assert(g.pending == final(c).pending_fetches@ && g.trace == final(ctx)@);
    if r {
        lemma_up_to(f, sq_id, old(c).sqs@[sq_id], new_tail);
    }
}

/// The command in 64 bytes from `at` on, word by word.
pub open spec fn command_in(b: Seq<u8>, at: int, s: Sqe) -> bool {
    &&& s.cdw0 == laws::four_bytes(b, at)
    &&& s.nsid == laws::four_bytes(b, at + 4)
    &&& s.cdw2 == laws::four_bytes(b, at + 8)
    &&& s.cdw3 == laws::four_bytes(b, at + 12)
    &&& s.mptr == laws::four_bytes(b, at + 16) + 0x1_0000_0000 * laws::four_bytes(b, at + 20)
    &&& s.prp1 == laws::four_bytes(b, at + 24) + 0x1_0000_0000 * laws::four_bytes(b, at + 28)
    &&& s.prp2 == laws::four_bytes(b, at + 32) + 0x1_0000_0000 * laws::four_bytes(b, at + 36)
    &&& s.cdw10 == laws::four_bytes(b, at + 40)
    &&& s.cdw11 == laws::four_bytes(b, at + 44)
    &&& s.cdw12 == laws::four_bytes(b, at + 48)
    &&& s.cdw13 == laws::four_bytes(b, at + 52)
    &&& s.cdw14 == laws::four_bytes(b, at + 56)
    &&& s.cdw15 == laws::four_bytes(b, at + 60)
}

pub(crate) proof fn lemma_eight_bytes(b: Seq<u8>, at: int)
    ensures
        bytes::le64_at(b, at) == laws::four_bytes(b, at) + 0x1_0000_0000 * laws::four_bytes(
            b,
            at + 4,
        ),
{
    lemma_four_bytes(b, at);
    lemma_four_bytes(b, at + 4);
    let (lo, hi) = (bytes::le32_at(b, at), bytes::le32_at(b, at + 4));
    assert((lo as u64) | ((hi as u64) << 32) == lo + 0x1_0000_0000 * hi) by (bit_vector);
}

proof fn lemma_command_in(b: Seq<u8>, at: int)
    ensures
        command_in(b, at, cmd::sqe_at(b, at)),
{
    lemma_four_bytes(b, at);
    lemma_four_bytes(b, at + 4);
    lemma_four_bytes(b, at + 8);
    lemma_four_bytes(b, at + 12);
    lemma_eight_bytes(b, at + 16);
    lemma_eight_bytes(b, at + 24);
    lemma_eight_bytes(b, at + 32);
    lemma_four_bytes(b, at + 40);
    lemma_four_bytes(b, at + 44);
    lemma_four_bytes(b, at + 48);
    lemma_four_bytes(b, at + 52);
    lemma_four_bytes(b, at + 56);
    lemma_four_bytes(b, at + 60);
}

/// A command is read word by word, and only from exactly 64 bytes.
pub proof fn law_command_is_read(b: &[u8], r: Option<Sqe>, at: usize, d: Sqe)
    requires
        call_ensures(Sqe::read_from_bytes, (b,), r),
        call_ensures(Sqe::decode_at, (b, at), d),
    ensures
        r is Some <==> b@.len() == 64,
        r is Some ==> command_in(b@, 0, r->0),
        command_in(b@, at as int, d),
{
    lemma_command_in(b@, 0);
    lemma_command_in(b@, at as int);
}

/// A fetch is over. Where it brought as many bytes as were asked for, its commands are in the
/// inbox behind those that were there, in order, each with the slot after its own, and the
/// head of the queue is past them. Where it did not, that is fatal. A fetch that nobody
/// knows of changes nothing.
pub open spec fn entries_came(
    before: NvmeController,
    after: NvmeController,
    token: u64,
    data: Seq<u8>,
) -> bool {
    let known = before.pending_fetches@.contains_key(token);
    let f = before.pending_fetches@[token];
    let whole = known && data.len() == 64 * f.count;
    let (inbox, now) = (before.sqe_inbox@, after.sqe_inbox@);
    &&& after.pending_fetches@ == before.pending_fetches@.remove(token)
    &&& after.csts == (if known && !whole {
        before.csts | 2
    } else {
        before.csts
    })
    &&& after == (NvmeController {
        sqs: after.sqs,
        pending_fetches: after.pending_fetches,
        sqe_inbox: after.sqe_inbox,
        csts: after.csts,
        ..before
    })
    &&& !whole ==> now == inbox && after.sqs@ == before.sqs@
    &&& whole ==> {
        &&& now.len() == inbox.len() + f.count
        &&& forall|i: int| 0 <= i < inbox.len() ==> now[i] == #[trigger] inbox[i]
        &&& forall|i: int|
            0 <= i < f.count ==> {
                let e = #[trigger] now[inbox.len() + i];
                &&& e.0 == f.sq_id
                &&& command_in(data, 64 * i, e.2)
                &&& before.sqs@.contains_key(f.sq_id) && before.sqs@[f.sq_id].size <= 65536
                    ==> e.1 == (f.start_slot + i + 1) % (before.sqs@[f.sq_id].size as int)
            }
        &&& !before.sqs@.contains_key(f.sq_id) ==> after.sqs@ == before.sqs@
        &&& before.sqs@.contains_key(f.sq_id) ==> {
            let q = before.sqs@[f.sq_id];
            let n = after.sqs@[f.sq_id];
            &&& after.sqs@ == before.sqs@.insert(f.sq_id, n)
            &&& n == (SubmissionQueue { head: n.head, ..q })
            &&& n.head == (f.start_slot + f.count) % (q.size as int)
        }
    }
}

proof fn lemma_entries_came(before: NvmeController, after: NvmeController, token: u64, data: Seq<u8>)
    requires
        crate::controller::queues::fetch_taken(before, after, token, data),
        before.pending_fetches@.contains_key(token) && before.sqs@.contains_key(
            before.pending_fetches@[token].sq_id,
        ) ==> before.sqs@[before.pending_fetches@[token].sq_id].size > 0,
    ensures
        entries_came(before, after, token, data),
{
    let f = before.pending_fetches@[token];
    let (inbox, now) = (before.sqe_inbox@, after.sqe_inbox@);
    if before.pending_fetches@.contains_key(token) && data.len() == 64 * f.count {
        let has = before.sqs@.contains_key(f.sq_id);
        let q = before.sqs@[f.sq_id];
        let size = if has {
            q.size as int
        } else {
            1
        };
        let all = crate::controller::queues::fetched_commands(f.sq_id, size, f, data);
        assert(now == inbox + all);
        vstd::arithmetic::div_mod::lemma_mod_bound(f.start_slot + f.count, size);
        assert forall|i: int| 0 <= i < f.count implies {
            let e = #[trigger] now[inbox.len() + i];
            &&& e.0 == f.sq_id
            &&& command_in(data, 64 * i, e.2)
            &&& has && q.size <= 65536 ==> e.1 == (f.start_slot + i + 1) % (q.size as int)
        } by {
            assert(now[inbox.len() + i] == all[i]);
            lemma_command_in(data, i * 64);
            vstd::arithmetic::div_mod::lemma_mod_bound(f.start_slot + i + 1, size);
        }
        if has {
            assert(after.sqs@ =~= before.sqs@.insert(f.sq_id, after.sqs@[f.sq_id]));
        }
    }
}

/// See `entries_came`.
pub proof fn law_fetched_commands_arrive(c: &mut NvmeController, token: u64, data: Vec<u8>)
    requires
        call_ensures(NvmeController::on_fetched_sqes, (c, token, data), ()),
        old(c).pending_fetches@.contains_key(token) && old(c).sqs@.contains_key(
            old(c).pending_fetches@[token].sq_id,
        ) ==> old(c).sqs@[old(c).pending_fetches@[token].sq_id].size > 0,
    ensures
        entries_came(*old(c), *final(c), token, data@),
{
    lemma_entries_came(*old(c), *final(c), token, data@);
}

/// The end of a transfer goes to whoever asked for it, and to nobody twice: a look at a
/// shadow, an event index, a fetch, or a command, which is handed on as it was held. A fetch
/// that failed brought nothing. What nobody asked for changes nothing.
pub proof fn law_transfer_goes_to_its_owner(
    c: &mut NvmeController,
    ctx: &mut DeviceCtx,
    token: u64,
    ok: bool,
    data: Vec<u8>,
    r: DmaRoute,
    admin: bool,
)
    requires
        admin ==> call_ensures(
            NvmeController::nvme_admin_complete_dma,
            (c, ctx, token, ok, data),
            r,
        ),
        !admin ==> call_ensures(NvmeController::on_dma_complete, (c, ctx, token, ok, data), r),
        old(c).pending_shadow_polls@.contains_key(token) ==> {
            let qid = old(c).pending_shadow_polls@[token].qid;
            tail_fits(*old(c), qid) && old(c).doorbell_event_idx_gpa + 8 * qid + 4 <= u64::MAX
        },
        old(c).pending_fetches@.contains_key(token) && old(c).sqs@.contains_key(
            old(c).pending_fetches@[token].sq_id,
        ) ==> old(c).sqs@[old(c).pending_fetches@[token].sq_id].size > 0,
    ensures
        ({
            let polls = old(c).pending_shadow_polls@;
            let writes = old(c).pending_eventidx_writes@;
            if polls.contains_key(token) {
                &&& r is Done
                &&& look_ended(
                    *old(c),
                    polls.remove(token),
                    old(ctx)@,
                    *final(c),
                    final(ctx)@,
                    polls[token],
                    ok,
                    data@,
                )
            } else if writes.contains(token) {
                &&& r is Done
                &&& final(c).pending_eventidx_writes@ == writes.remove(token)
                &&& same_queues(*old(c), *final(c))
                &&& same_buffers(*old(c), *final(c))
                &&& same_chains(*old(c), *final(c))
                &&& final(c).last_mmio_sq_doorbell@ == old(c).last_mmio_sq_doorbell@
                &&& final(c).last_eventidx_sq@ == old(c).last_eventidx_sq@
                &&& final(c).dbbuf_shadow_ahead_count == old(c).dbbuf_shadow_ahead_count
                &&& only_doorbells_changed(*old(c), *final(c))
                &&& final(ctx)@ == old(ctx)@
            } else if old(c).pending_fetches@.contains_key(token) {
                &&& r is Done
                &&& final(ctx)@ == old(ctx)@
                &&& entries_came(
                    *old(c),
                    *final(c),
                    token,
                    if ok {
                        data@
                    } else {
                        Seq::empty()
                    },
                )
            } else {
                &&& final(ctx)@ == old(ctx)@
                &&& r is Command <==> old(c).pending_ios@.contains_key(token)
                &&& r is Command ==> r->Command_0 == old(c).pending_ios@[token]
                &&& !(r is Command) ==> r is Unknown
                &&& final(c).pending_ios@ == old(c).pending_ios@.remove(token)
                &&& *final(c) == (NvmeController {
                    pending_ios: final(c).pending_ios,
                    ..*old(c)
                })
            }
        }),
{
    let s = old(c).shadow(old(ctx)@);
    if s.polls.contains_key(token) {
        lemma_look_ended(
            *old(c),
            s.polls.remove(token),
            old(ctx)@,
            *final(c),
            final(ctx)@,
            s.polls[token],
            ok,
            data@,
        );
    } else if s.writes.contains(token) {
        lemma_parts(
            *final(c),
            final(ctx)@,
            Shadow { writes: s.writes.remove(token), ..s },
        );
    } else if s.fetches.contains_key(token) {
        lemma_entries_came(
            *old(c),
            *final(c),
            token,
            if ok {
                data@
            } else {
                Seq::empty()
            },
        );
    }
}

} // verus!
