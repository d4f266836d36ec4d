//! What a tick does.
use vstd::prelude::*;

use crate::controller::ctx::{DeviceCtx, Event, Trace};
use crate::controller::events::Events;
use crate::controller::post::Link;
use crate::controller::shadow;
use crate::controller::shadow::Shadow;
use crate::controller::tick;
use crate::controller::{
    NvmeController, SanitizeState, SelfTestInProgress, ShadowPollCtx,
};
use crate::laws;
use crate::laws::doorbells;
use crate::laws::events;
use crate::laws::events::Desk;
use crate::regs::CompletionQueue;

verus! {

/// Whole seconds from `start` to `now`; none where `start` is still to come.
pub open spec fn seconds(start: u64, now: u64) -> int {
    if now < start {
        0
    } else {
        (now - start) / 1_000_000_000
    }
}

/// A self-test that was running is over after its time, without error, and the hours of
/// operation are noted; before that it reports the part of its time that has passed, in
/// percent. Where none is running nothing changes.
pub proof fn law_self_test_ends_in_time(c: &mut NvmeController, ctx: &mut DeviceCtx)
    requires
        call_ensures(NvmeController::tick, (c, ctx), ()),
    ensures
        match old(c).self_test_in_progress {
            None => final(c).self_test_in_progress is None && final(c).self_test_last
                == old(c).self_test_last,
            Some(t) => {
                let past = seconds(t.started_at, old(ctx)@.now);
                if past >= t.total_seconds {
                    &&& final(c).self_test_in_progress is None
                    &&& final(c).self_test_last is Some
                    &&& final(c).self_test_last->0.stc == t.stc
                    &&& final(c).self_test_last->0.result == 0
                    &&& final(c).self_test_last->0.completed_at_poh == seconds(
                        old(c).power_on_instant,
                        old(ctx)@.now,
                    ) / 3600
                } else {
                    let now = final(c).self_test_in_progress->0;
                    &&& final(c).self_test_last == old(c).self_test_last
                    &&& final(c).self_test_in_progress is Some
                    &&& now == (SelfTestInProgress { percent_complete: now.percent_complete, ..t })
                    &&& now.percent_complete == past * 100 / (t.total_seconds as int)
                    &&& now.percent_complete < 100
                }
            },
        },
{
    if let Some(t) = old(c).self_test_in_progress {
        let past = seconds(t.started_at, old(ctx)@.now);
        if past < t.total_seconds {
            lemma_part(past, t.total_seconds as int, 100);
        }
    }
}

proof fn lemma_part(past: int, total: int, full: int)
    requires
        0 <= past < total,
        0 < full,
    ensures
        0 <= past * full / total < full,
{
    assert(past * full < total * full && 0 <= past * full) by (nonlinear_arith)
        requires
            0 <= past < total,
            0 < full,
    ;
    vstd::arithmetic::div_mod::lemma_div_pos_is_pos(past * full, total);
    vstd::arithmetic::div_mod::lemma_fundamental_div_mod(past * full, total);
    let d = past * full / total;
    assert(d < full) by (nonlinear_arith)
        requires
            past * full == total * d + (past * full) % total,
            0 <= (past * full) % total,
            past * full < total * full,
            total > 0,
    ;
}

/// A sanitize operation that was running is over after its time, with success; before that
/// it reports the part of its time that has passed, of 65535. Where none is running nothing
/// changes.
pub proof fn law_sanitize_ends_in_time(c: &mut NvmeController, ctx: &mut DeviceCtx)
    requires
        call_ensures(NvmeController::tick, (c, ctx), ()),
    ensures
        match old(c).sanitize {
            None => final(c).sanitize is None && final(c).sanitize_last_status
                == old(c).sanitize_last_status,
            Some(t) => {
                let past = seconds(t.started_at, old(ctx)@.now);
                if past >= t.total_seconds {
                    &&& final(c).sanitize is None
                    &&& final(c).sanitize_last_status == 1
                } else {
                    let now = final(c).sanitize->0;
                    &&& final(c).sanitize_last_status == old(c).sanitize_last_status
                    &&& final(c).sanitize is Some
                    &&& now == (SanitizeState { percent_complete: now.percent_complete, ..t })
                    &&& now.percent_complete == past * 65535 / (t.total_seconds as int)
                    &&& now.percent_complete < 65535
                }
            },
        },
{
    if let Some(t) = old(c).sanitize {
        let past = seconds(t.started_at, old(ctx)@.now);
        if past < t.total_seconds {
            lemma_part(past, t.total_seconds as int, 65535);
        }
    }
}

/// A self-test is over at time `now`.
pub open spec fn self_test_is_over(c: NvmeController, now: u64) -> bool {
    c.self_test_in_progress is Some && seconds(c.self_test_in_progress->0.started_at, now)
        >= c.self_test_in_progress->0.total_seconds
}

/// A sanitize operation is over at time `now`.
pub open spec fn sanitize_is_over(c: NvmeController, now: u64) -> bool {
    c.sanitize is Some && seconds(c.sanitize->0.started_at, now) >= c.sanitize->0.total_seconds
}

/// An event happened where `there` holds, and else nothing.
pub open spec fn told_if(
    there: bool,
    before: Desk,
    after: Desk,
    c: NvmeController,
    kind: int,
    info: int,
    page: int,
) -> bool {
    if there {
        events::event_told(
            before,
            after,
            c.sqs@,
            c.irq_aggr_threshold,
            None,
            kind,
            info,
            page,
        )
    } else {
        after == before
    }
}

/// What the host is told in a tick: first the end of a self-test, then errors that it was not
/// told of, then the end of a sanitize operation.
pub open spec fn all_told(c: NvmeController, t: Trace, d1: Desk, d2: Desk, d3: Desk) -> bool {
    &&& told_if(self_test_is_over(c, t.now), events::desk(c, t), d1, c, 2, 1, 6)
    &&& told_if(c.stat_num_err_log_entries > c.aen_last_err_count, d1, d2, c, 0, 0, 1)
    &&& told_if(sanitize_is_over(c, t.now), d2, d3, c, 2, 5, 0x81)
}

/// The desk that stands for `e`.
spec fn desk_of(e: Events) -> Desk {
    Desk { aers: e.aers, cqs: e.link.cqs, t: e.link.trace }
}

proof fn lemma_told(c: NvmeController, t: Trace)
    requires
        laws::all_in_order(c.cqs@),
    ensures
        all_told(
            c,
            t,
            desk_of(c.after_self_test(t).events),
            desk_of(c.after_errors(t).events),
            desk_of(c.kept(t).events),
        ),
        laws::all_in_order(c.kept(t).events.link.cqs),
        c.kept(t).events.link.trace.now == t.now,
{
    let (sqs, thr) = (c.sqs@, c.irq_aggr_threshold);
    events::lemma_desk(c, t);
    events::lemma_event_told(c.events(t), sqs, thr, None, 2, 1, 6);
    events::lemma_event_told(c.after_self_test(t).events, sqs, thr, None, 0, 0, 1);
    events::lemma_event_told(c.after_errors(t).events, sqs, thr, None, 2, 5, 0x81);
    assert(desk_of(c.events(t)) =~= events::desk(c, t));
}

/// The interrupt of queue `q`, number `id`, has been held back long enough at time `now`:
/// `time` units of 100 microseconds since the last one. One completion that waits is enough.
/// The admin queue holds none back.
pub open spec fn held_back_too_long(q: CompletionQueue, id: u16, time: u8, now: u64) -> bool {
    &&& id != 0
    &&& time != 0
    &&& q.interrupt_enabled
    &&& q.pending_completions != 0
    &&& q.last_fire is Some
    &&& now >= q.last_fire->0
    &&& now - q.last_fire->0 >= 100_000 * time
}

/// The requests of `later` beyond those of `earlier` hold `e`.
pub open spec fn asked_since(earlier: Trace, later: Trace, e: Event) -> bool {
    exists|i: int| earlier.events.len() <= i < later.events.len() && #[trigger] later.events[i] == e
}

/// `later` holds the requests of `earlier`, unchanged and in front.
pub open spec fn went_on(earlier: Trace, later: Trace) -> bool {
    &&& earlier.events.len() <= later.events.len()
    &&& forall|i: int| 0 <= i < earlier.events.len() ==> later.events[i] == #[trigger] earlier.events[i]
    &&& later.now == earlier.now
}

/// How many queues up to number `n` hold an interrupt back too long.
pub open spec fn overdue(cqs: Map<u16, CompletionQueue>, time: u8, now: u64, n: nat) -> int
    decreases n,
{
    if n == 0 {
        0
    } else {
        overdue(cqs, time, now, (n - 1) as nat) + (if cqs.contains_key(n as u16)
            && held_back_too_long(cqs[n as u16], n as u16, time, now) {
            1int
        } else {
            0int
        })
    }
}

proof fn lemma_flush(l: Link, time: u8, n: nat)
    requires
        n <= 256,
        time > 0,
    ensures
        ({
            let r = l.flushed(time, n);
            &&& laws::more_requests(l.trace, r.trace, overdue(l.cqs, time, l.trace.now, n))
            &&& r.trace.next_token == l.trace.next_token
            &&& r.cqs.dom() == l.cqs.dom()
            &&& forall|i: int|
                l.trace.events.len() <= i < r.trace.events.len()
                    ==> #[trigger] r.trace.events[i] is FireInterrupt
            &&& forall|id: u16| #[trigger]
                l.cqs.contains_key(id) ==> r.cqs[id] == (if id <= n && held_back_too_long(
                    l.cqs[id],
                    id,
                    time,
                    l.trace.now,
                ) {
                    CompletionQueue {
                        pending_completions: 0,
                        last_fire: Some(l.trace.now),
                        ..l.cqs[id]
                    }
                } else {
                    l.cqs[id]
                })
            &&& forall|id: u16| #[trigger]
                l.cqs.contains_key(id) && id <= n && held_back_too_long(
                    l.cqs[id],
                    id,
                    time,
                    l.trace.now,
                ) ==> asked_since(
                    l.trace,
                    r.trace,
                    Event::FireInterrupt { msix_index: l.cqs[id].interrupt_vector as u32 },
                )
            &&& overdue(l.cqs, time, l.trace.now, n) >= 0
        }),
    decreases n,
{
    if n > 0 {
        lemma_flush(l, time, (n - 1) as nat);
        let p = l.flushed(time, (n - 1) as nat);
        let r = l.flushed(time, n);
        let id = n as u16;
        let now = l.trace.now;
        assert(r.cqs.dom() =~= l.cqs.dom());
        if l.cqs.contains_key(id) {
            assert(p.cqs[id] == l.cqs[id]);
            assert(p.cqs[id].flush_due(time, now) <==> held_back_too_long(
                l.cqs[id],
                id,
                time,
                now,
            ));
            if held_back_too_long(l.cqs[id], id, time, now) {
                let e = Event::FireInterrupt { msix_index: l.cqs[id].interrupt_vector as u32 };
                assert(r.trace.events[p.trace.events.len() as int] == e);
            }
        }
        assert forall|j: u16| #[trigger] l.cqs.contains_key(j) && j <= n && held_back_too_long(
            l.cqs[j],
            j,
            time,
            now,
        ) implies asked_since(
            l.trace,
            r.trace,
            Event::FireInterrupt { msix_index: l.cqs[j].interrupt_vector as u32 },
        ) by {
            let e = Event::FireInterrupt { msix_index: l.cqs[j].interrupt_vector as u32 };
            if j < n {
                assert(asked_since(l.trace, p.trace, e));
                let i = choose|i: int|
                    l.trace.events.len() <= i < p.trace.events.len() && #[trigger] p.trace.events[i]
                        == e;
                assert(r.trace.events[i] == e);
            } else {
                assert(r.trace.events[p.trace.events.len() as int] == e);
            }
        }
        assert forall|j: u16| #[trigger] l.cqs.contains_key(j) implies r.cqs[j] == (if j <= n
            && held_back_too_long(l.cqs[j], j, time, now) {
            CompletionQueue { pending_completions: 0, last_fire: Some(now), ..l.cqs[j] }
        } else {
            l.cqs[j]
        }) by {
            assert(p.cqs.contains_key(j));
        }
    }
}

/// Interrupts that were held back too long are raised, each once: the queue of each has no
/// completion waiting any more, and counts its time from now on. Every other queue is as it
/// was, and no other interrupt is raised. What a queue held back is seen after the events of
/// the tick were told.
pub open spec fn held_back_raised(time: u8, d: Desk, cqs_after: Map<u16, CompletionQueue>, t_after: Trace) -> bool {
    let now = d.t.now;
    &&& cqs_after.dom() == d.cqs.dom()
    &&& laws::more_requests(d.t, t_after, overdue(d.cqs, time, now, 256))
    &&& t_after.next_token == d.t.next_token
    &&& forall|i: int|
        d.t.events.len() <= i < t_after.events.len()
            ==> #[trigger] t_after.events[i] is FireInterrupt
    &&& forall|id: u16| #[trigger]
        d.cqs.contains_key(id) && id <= 256 ==> if held_back_too_long(d.cqs[id], id, time, now) {
            &&& cqs_after[id] == (CompletionQueue {
                pending_completions: 0,
                last_fire: Some(now),
                ..d.cqs[id]
            })
            &&& asked_since(
                d.t,
                t_after,
                Event::FireInterrupt { msix_index: d.cqs[id].interrupt_vector as u32 },
            )
        } else {
            cqs_after[id] == d.cqs[id]
        }
}

proof fn lemma_overdue_is_a_count(cqs: Map<u16, CompletionQueue>, time: u8, now: u64, n: nat)
    ensures
        overdue(cqs, time, now, n) >= 0,
    decreases n,
{
    if n > 0 {
        lemma_overdue_is_a_count(cqs, time, now, (n - 1) as nat);
    }
}

proof fn lemma_none_overdue(cqs: Map<u16, CompletionQueue>, now: u64, n: nat)
    ensures
        overdue(cqs, 0, now, n) == 0,
    decreases n,
{
    if n > 0 {
        lemma_none_overdue(cqs, now, (n - 1) as nat);
    }
}

proof fn lemma_raised(l: Link, aers: Seq<crate::controller::Aer>, time: u8)
    ensures
        held_back_raised(
            time,
            Desk { aers, cqs: l.cqs, t: l.trace },
            l.coalescing_flushed(time).cqs,
            l.coalescing_flushed(time).trace,
        ),
{
    if time > 0 {
        lemma_flush(l, time, 256);
    } else {
        lemma_none_overdue(l.cqs, l.trace.now, 256);
    }
}

/// The number of a doorbell of an I/O queue of `s` that is looked at.
spec fn looked(s: Shadow, key: u32, n: int, m: int) -> bool {
    if key % 2 == 0 {
        1 <= key / 2 <= n && s.sqs.contains_key((key / 2) as u16)
    } else {
        1 <= key / 2 <= m && s.cqs.contains_key((key / 2) as u16)
    }
}

/// `r` is `s` after the doorbells of the submission queues up to `n` and of the completion
/// queues up to `m` were looked at.
spec fn looks_done(s: Shadow, r: Shadow, n: int, m: int) -> bool {
    &&& r == (Shadow {
        polls: r.polls,
        inflight: r.inflight,
        rung: r.rung,
        trace: r.trace,
        ..s
    })
    &&& went_on(s.trace, r.trace)
    &&& r.trace.next_token - s.trace.next_token == r.trace.events.len() - s.trace.events.len()
    &&& r.trace.events.len() <= s.trace.events.len() + n + m
    &&& forall|key: u32| #[trigger]
        r.inflight.contains(key) <==> s.inflight.contains(key) || looked(s, key, n, m)
    &&& forall|key: u32| #[trigger]
        r.rung.contains(key) <==> s.rung.contains(key) || (s.inflight.contains(key) && looked(
            s,
            key,
            n,
            m,
        ))
    &&& forall|key: u32|
        #![trigger s.inflight.contains(key)]
        looked(s, key, n, m) && !s.inflight.contains(key) ==> look_asked(s, r, key)
    &&& forall|i: int|
        s.trace.events.len() <= i < r.trace.events.len()
            ==> #[trigger] r.trace.events[i] is DmaRead
    &&& forall|tok: u64| #[trigger]
        s.polls.contains_key(tok) && tok < s.trace.next_token ==> r.polls.contains_key(tok)
            && r.polls[tok] == s.polls[tok]
}

/// The shadow of doorbell `key` was asked for, and is remembered under its token.
spec fn look_asked(s: Shadow, r: Shadow, key: u32) -> bool {
    exists|i: int| s.trace.events.len() <= i < r.trace.events.len() && asked_as(s, r, i, key)
}

spec fn asked_as(s: Shadow, r: Shadow, i: int, key: u32) -> bool {
    let tok = (s.trace.next_token + (i - s.trace.events.len())) as u64;
    &&& r.trace.events[i] == (Event::DmaRead {
        token: tok,
        gpa: (s.shadow_gpa + 4 * key) as u64,
        len: 4,
    })
    &&& r.polls.contains_key(tok)
    &&& r.polls[tok] == (ShadowPollCtx {
        qid: (key / 2) as u16,
        is_cq: key % 2 == 1,
        iters: 0,
    })
}

proof fn lemma_one_look(s: Shadow, p: Shadow, qid: u16, is_cq: bool, n: int, m: int)
    requires
        looks_done(s, p, n, m),
        s.active(),
        s.trace.next_token + n + m + 1 < u64::MAX,
        1 <= qid,
        is_cq ==> qid == m + 1 && s.cqs.contains_key(qid),
        !is_cq ==> qid == n + 1 && s.sqs.contains_key(qid),
        0 <= n,
        0 <= m,
    ensures
        looks_done(
            s,
            p.rung_at(qid, is_cq),
            if is_cq {
                n
            } else {
                n + 1
            },
            if is_cq {
                m + 1
            } else {
                m
            },
        ),
{
    let r = p.rung_at(qid, is_cq);
    let key = shadow::doorbell_key(qid, is_cq);
    let (n2, m2) = if is_cq {
        (n, m + 1)
    } else {
        (n + 1, m)
    };
    assert(key / 2 == qid && key % 2 == (if is_cq {
        1u32
    } else {
        0u32
    }));
    assert forall|k: u32| looked(s, k, n2, m2) == (looked(s, k, n, m) || k == key) by {}
    assert(!looked(s, key, n, m));
    assert forall|k: u32|
        #![trigger s.inflight.contains(k)]
        looked(s, k, n2, m2) && !s.inflight.contains(k) implies look_asked(s, r, k) by {
        if k == key {
            let i = p.trace.events.len() as int;
            assert(!p.inflight.contains(key));
            assert(asked_as(s, r, i, key));
        } else {
            assert(look_asked(s, p, k));
            let i = choose|i: int|
                s.trace.events.len() <= i < p.trace.events.len() && asked_as(s, p, i, k);
            assert(asked_as(s, r, i, k));
        }
    }
    assert(p.inflight.contains(key) <==> s.inflight.contains(key));
}

proof fn lemma_sq_looks(s: Shadow, n: nat)
    requires
        s.active(),
        n <= 256,
        s.trace.next_token + 600 < u64::MAX,
    ensures
        looks_done(s, s.sqs_looked_at(n), n as int, 0),
    decreases n,
{
    if n > 0 {
        lemma_sq_looks(s, (n - 1) as nat);
        let p = s.sqs_looked_at((n - 1) as nat);
        if s.sqs.contains_key(n as u16) {
            lemma_one_look(s, p, n as u16, false, n - 1, 0);
        } else {
            assert forall|k: u32| looked(s, k, n as int, 0) == looked(s, k, n - 1, 0) by {
                if k % 2 == 0 && k / 2 == n {
                    assert((k / 2) as u16 == n as u16);
                }
            }
        }
    }
}

proof fn lemma_cq_looks(s: Shadow, a: Shadow, m: nat)
    requires
        s.active(),
        m <= 256,
        s.trace.next_token + 600 < u64::MAX,
        looks_done(s, a, 256, 0),
    ensures
        looks_done(s, a.cqs_looked_at(m), 256, m as int),
    decreases m,
{
    if m > 0 {
        lemma_cq_looks(s, a, (m - 1) as nat);
        let p = a.cqs_looked_at((m - 1) as nat);
        if a.cqs.contains_key(m as u16) {
            lemma_one_look(s, p, m as u16, true, 256, m - 1);
        } else {
            assert forall|k: u32| looked(s, k, 256, m as int) == looked(s, k, 256, m - 1) by {
                if k % 2 == 1 && k / 2 == m {
                    assert((k / 2) as u16 == m as u16);
                }
            }
        }
    }
}

/// The tick as a whole: the host is told of what happened, then held back interrupts are
/// raised, and then, with shadows, every I/O queue is looked at. Errors that the host was
/// told of are not told again. Nothing else changes.
pub open spec fn tick_in_order(
    c: NvmeController,
    t: Trace,
    after: NvmeController,
    t_after: Trace,
    d1: Desk,
    d2: Desk,
    d3: Desk,
    t_raised: Trace,
) -> bool {
    &&& all_told(c, t, d1, d2, d3)
    &&& after.aen_pending@ == d3.aers
    &&& held_back_raised(c.irq_aggr_time, d3, after.cqs@, t_raised)
    &&& went_on(t_raised, t_after)
    &&& forall|i: int|
        t_raised.events.len() <= i < t_after.events.len() ==> #[trigger] t_after.events[i] is DmaRead
    &&& !doorbells::shadowed(c) ==> t_after == t_raised
}

/// See `tick_in_order`.
pub proof fn law_tick_in_order(c: &mut NvmeController, ctx: &mut DeviceCtx)
    requires
        call_ensures(NvmeController::tick, (c, ctx), ()),
        laws::all_in_order(old(c).cqs@),
        old(ctx)@.next_token < 0x8000_0000_0000_0000,
    ensures
        exists|d1: Desk, d2: Desk, d3: Desk, t_raised: Trace|
            tick_in_order(
                *old(c),
                old(ctx)@,
                *final(c),
                final(ctx)@,
                d1,
                d2,
                d3,
                t_raised,
            ),
        final(c).aen_last_err_count == (if old(c).stat_num_err_log_entries
            > old(c).aen_last_err_count {
            old(c).stat_num_err_log_entries
        } else {
            old(c).aen_last_err_count
        }),
{
    let t = old(ctx)@;
    let k = old(c).kept(t).events;
    lemma_told(*old(c), t);
    lemma_tokens(*old(c), t);
    lemma_raised(k.link, k.aers, old(c).irq_aggr_time);
    let l = old(c).flushed_link(t);
    let s = Shadow { cqs: l.cqs, trace: l.trace, ..old(c).shadow(t) };
    lemma_looks(s);
    doorbells::lemma_parts(*final(c), final(ctx)@, s.looked_at());
    assert(tick_in_order(
        *old(c),
        t,
        *final(c),
        final(ctx)@,
        desk_of(old(c).after_self_test(t).events),
        desk_of(old(c).after_errors(t).events),
        desk_of(k),
        l.trace,
    ));
}

proof fn lemma_looks(s: Shadow)
    requires
        s.trace.next_token + 600 < u64::MAX,
    ensures
        s.active() ==> looks_done(s, s.looked_at(), 256, 256),
        !s.active() ==> s.looked_at() == s,
{
    if s.active() {
        lemma_sq_looks(s, 256);
        lemma_cq_looks(s, s.sqs_looked_at(256), 256);
    }
}

/// Telling of events takes at most three tokens.
proof fn lemma_tokens(c: NvmeController, t: Trace)
    requires
        t.next_token < 0x8000_0000_0000_0000,
    ensures
        c.kept(t).events.link.trace.next_token <= t.next_token + 3,
        c.flushed_link(t).trace.next_token == c.kept(t).events.link.trace.next_token,
{
    let l = c.kept(t).events.link;
    if c.irq_aggr_time > 0 {
        lemma_flush(l, c.irq_aggr_time, 256);
    }
}

/// After a tick no I/O queue whose interrupt was held back too long has a completion left
/// that waits, not even a single one; and where a queue held one back too long when the tick
/// began, its interrupt was raised.
pub proof fn law_no_completion_waits_too_long(c: &mut NvmeController, ctx: &mut DeviceCtx, id: u16)
    requires
        call_ensures(NvmeController::tick, (c, ctx), ()),
        laws::all_in_order(old(c).cqs@),
        old(ctx)@.next_token < 0x8000_0000_0000_0000,
        1 <= id <= 256,
    ensures
        final(c).cqs@.contains_key(id) <==> old(c).cqs@.contains_key(id),
        final(c).cqs@.contains_key(id) ==> !held_back_too_long(
            final(c).cqs@[id],
            id,
            old(c).irq_aggr_time,
            old(ctx)@.now,
        ),
        old(c).cqs@.contains_key(id) && held_back_too_long(
            old(c).cqs@[id],
            id,
            old(c).irq_aggr_time,
            old(ctx)@.now,
        ) ==> {
            &&& final(c).cqs@[id].last_fire == Some(old(ctx)@.now)
            &&& old(c).aen_pending@.len() == 0 ==> final(c).cqs@[id].pending_completions == 0
            &&& asked_since(
                old(ctx)@,
                final(ctx)@,
                Event::FireInterrupt { msix_index: old(c).cqs@[id].interrupt_vector as u32 },
            )
        },
{
    law_tick_in_order(c, ctx);
    let t = old(ctx)@;
    let (d1, d2, d3, tr) = choose|d1: Desk, d2: Desk, d3: Desk, t_raised: Trace|
        tick_in_order(*old(c), t, *final(c), final(ctx)@, d1, d2, d3, t_raised);
    let d0 = events::desk(*old(c), t);
    let time = old(c).irq_aggr_time;
    lemma_one_event(d0, d1, *old(c), self_test_is_over(*old(c), t.now), 2, 1, 6, id);
    lemma_one_event(
        d1,
        d2,
        *old(c),
        old(c).stat_num_err_log_entries > old(c).aen_last_err_count,
        0,
        0,
        1,
        id,
    );
    lemma_one_event(d2, d3, *old(c), sanitize_is_over(*old(c), t.now), 2, 5, 0x81, id);
    if old(c).cqs@.contains_key(id) && held_back_too_long(old(c).cqs@[id], id, time, t.now) {
        let e = Event::FireInterrupt { msix_index: old(c).cqs@[id].interrupt_vector as u32 };
        lemma_overdue_is_a_count(d3.cqs, time, t.now, 256);
        lemma_asked_in_the_end(t, d1.t, d2.t, d3.t, tr, final(ctx)@, e);
        assert(d3.cqs.contains_key(id));
    }
}

proof fn lemma_asked_in_the_end(
    t0: Trace,
    t1: Trace,
    t2: Trace,
    t3: Trace,
    t4: Trace,
    t5: Trace,
    e: Event,
)
    requires
        went_on(t0, t1),
        went_on(t1, t2),
        went_on(t2, t3),
        went_on(t3, t4),
        went_on(t4, t5),
    ensures
        asked_since(t0, t1, e) || asked_since(t1, t2, e) || asked_since(t2, t3, e) || asked_since(
            t3,
            t4,
            e,
        ) ==> asked_since(t0, t5, e),
{
    lemma_still_asked(t0, t0, t1, t2, e);
    lemma_still_asked(t0, t0, t2, t3, e);
    lemma_still_asked(t0, t0, t3, t4, e);
    lemma_still_asked(t0, t0, t4, t5, e);
    lemma_still_asked(t0, t1, t2, t2, e);
    lemma_still_asked(t0, t2, t3, t3, e);
    lemma_still_asked(t0, t3, t4, t4, e);
}

proof fn lemma_still_asked(a: Trace, b: Trace, c: Trace, d: Trace, e: Event)
    requires
        a.events.len() <= b.events.len(),
        went_on(c, d),
    ensures
        asked_since(b, c, e) ==> asked_since(a, d, e),
{
    if asked_since(b, c, e) {
        let i = choose|i: int| b.events.len() <= i < c.events.len() && #[trigger] c.events[i] == e;
        assert(d.events[i] == e);
    }
}

/// An event leaves a queue that held its interrupt back too long as it was, but for one
/// completion more, or raises its interrupt.
proof fn lemma_one_event(
    a: Desk,
    b: Desk,
    c: NvmeController,
    there: bool,
    kind: int,
    info: int,
    page: int,
    id: u16,
)
    requires
        told_if(there, a, b, c, kind, info, page),
        id != 0,
    ensures
        went_on(a.t, b.t),
        b.cqs.contains_key(id) <==> a.cqs.contains_key(id),
        a.cqs.contains_key(id) ==> {
            let (q, n) = (a.cqs[id], b.cqs[id]);
            let time = c.irq_aggr_time;
            &&& n.interrupt_vector == q.interrupt_vector
            &&& n.interrupt_enabled == q.interrupt_enabled
            &&& held_back_too_long(q, id, time, a.t.now) ==> {
                ||| held_back_too_long(n, id, time, a.t.now)
                ||| {
                    &&& n.pending_completions == 0
                    &&& n.last_fire == Some(a.t.now)
                    &&& asked_since(
                        a.t,
                        b.t,
                        Event::FireInterrupt { msix_index: q.interrupt_vector as u32 },
                    )
                }
            }
            &&& q.interrupt_enabled && q.last_fire == Some(a.t.now) ==> n.last_fire == Some(
                a.t.now,
            )
        },
{
    if there && events::anyone_listens(a.aers, None) {
        let i = choose|i: int| #[trigger]
            events::is_oldest(a.aers, None, i) && b.aers == a.aers.remove(i) && laws::answered(
                a.cqs,
                a.t,
                b.cqs,
                b.t,
                c.irq_aggr_threshold,
                a.aers[i].cq_id,
                events::event_answer(a, c.sqs@, a.aers[i], kind, info, page),
            );
        let q = a.aers[i].cq_id;
        if q == id && a.cqs.contains_key(id) && laws::wakes(a.cqs[id], id, c.irq_aggr_threshold) {
            assert(b.t.events[(a.t.events.len() + 1) as int] == laws::request(a.t, b.t, 1));
        }
    }
}

/// With shadows, a tick asks for the shadow of every doorbell of an I/O queue whose shadow is
/// not already on its way, and remembers that it did; for the others the ring is remembered.
pub proof fn law_tick_looks_at_every_queue(c: &mut NvmeController, ctx: &mut DeviceCtx, qid: u16, is_cq: bool)
    requires
        call_ensures(NvmeController::tick, (c, ctx), ()),
        doorbells::shadowed(*old(c)),
        old(ctx)@.next_token < 0x8000_0000_0000_0000,
        1 <= qid <= 256,
        old(c).doorbell_shadow_gpa + 8 * qid + 4 <= u64::MAX,
        if is_cq {
            old(c).cqs@.contains_key(qid)
        } else {
            old(c).sqs@.contains_key(qid)
        },
    ensures
        ({
            let key = doorbells::doorbell_number(qid, is_cq);
            &&& final(c).shadow_poll_inflight@.contains(key)
            &&& old(c).shadow_poll_inflight@.contains(key) ==> final(c).shadow_ring_pending@.contains(key)
            &&& !old(c).shadow_poll_inflight@.contains(key) ==> {
                &&& final(c).shadow_ring_pending@.contains(key) <==> old(c).shadow_ring_pending@.contains(key)
                &&& exists|tok: u64| #[trigger]
                    final(c).pending_shadow_polls@.contains_key(tok)
                        && final(c).pending_shadow_polls@[tok] == (ShadowPollCtx {
                        qid,
                        is_cq,
                        iters: 0,
                    }) && asked_since(
                        old(ctx)@,
                        final(ctx)@,
                        Event::DmaRead {
                            token: tok,
                            gpa: doorbells::entry_at(
                                old(c).doorbell_shadow_gpa,
                                qid,
                                is_cq,
                            ) as u64,
                            len: 4,
                        },
                    )
            }
        }),
{
    let t = old(ctx)@;
    lemma_tokens(*old(c), t);
    let l = old(c).flushed_link(t);
    let s = Shadow { cqs: l.cqs, trace: l.trace, ..old(c).shadow(t) };
    lemma_looks(s);
    let r = s.looked_at();
    doorbells::lemma_parts(*final(c), final(ctx)@, r);
    tick::lemma_link_keeps_queue_ids(*old(c), t);
    let key = doorbells::doorbell_number(qid, is_cq);
    assert(key / 2 == qid);
    assert(looked(s, key, 256, 256));
    lemma_goes_on(*old(c), t);
    if !s.inflight.contains(key) {
        assert(look_asked(s, r, key));
        let i = choose|i: int|
            s.trace.events.len() <= i < r.trace.events.len() && asked_as(s, r, i, key);
        let tok = (s.trace.next_token + (i - s.trace.events.len())) as u64;
        assert(final(c).pending_shadow_polls@.contains_key(tok));
        assert(final(ctx)@.events[i] == r.trace.events[i]);
    }
}

proof fn lemma_goes_on(c: NvmeController, t: Trace)
    ensures
        t.events.len() <= c.flushed_link(t).trace.events.len(),
{
    if c.irq_aggr_time > 0 {
        lemma_flush(c.kept(t).events.link, c.irq_aggr_time, 256);
    }
}

/// A tick looks at no doorbell besides, forgets no look that is on its way, and without
/// shadows looks at none.
pub proof fn law_tick_looks_at_nothing_else(c: &mut NvmeController, ctx: &mut DeviceCtx, key: u32)
    requires
        call_ensures(NvmeController::tick, (c, ctx), ()),
        old(ctx)@.next_token < 0x8000_0000_0000_0000,
        final(c).shadow_poll_inflight@.contains(key),
        !old(c).shadow_poll_inflight@.contains(key),
    ensures
        doorbells::shadowed(*old(c)),
        1 <= key / 2 <= 256,
        key % 2 == 0 ==> old(c).sqs@.contains_key((key / 2) as u16),
        key % 2 == 1 ==> old(c).cqs@.contains_key((key / 2) as u16),
{
    let t = old(ctx)@;
    lemma_tokens(*old(c), t);
    let l = old(c).flushed_link(t);
    let s = Shadow { cqs: l.cqs, trace: l.trace, ..old(c).shadow(t) };
    lemma_looks(s);
    doorbells::lemma_parts(*final(c), final(ctx)@, s.looked_at());
    tick::lemma_link_keeps_queue_ids(*old(c), t);
}

/// A tick moves no tail and fetches nothing, completes no command and changes no setting.
pub proof fn law_tick_leaves_the_rest_alone(c: &mut NvmeController, ctx: &mut DeviceCtx)
    requires
        call_ensures(NvmeController::tick, (c, ctx), ()),
        old(ctx)@.next_token < 0x8000_0000_0000_0000,
    ensures
        final(c).csts == old(c).csts,
        final(c).sqs@ == old(c).sqs@,
        final(c).pending_fetches@ == old(c).pending_fetches@,
        doorbells::same_buffers(*old(c), *final(c)),
        doorbells::same_notes(*old(c), *final(c)),
        doorbells::only_doorbells_changed(
            NvmeController {
                self_test_in_progress: final(c).self_test_in_progress,
                self_test_last: final(c).self_test_last,
                aen_last_err_count: final(c).aen_last_err_count,
                sanitize: final(c).sanitize,
                sanitize_last_status: final(c).sanitize_last_status,
                aen_pending: final(c).aen_pending,
                ..*old(c)
            },
            *final(c),
        ),
{
    let t = old(ctx)@;
    lemma_tokens(*old(c), t);
    let l = old(c).flushed_link(t);
    let s = Shadow { cqs: l.cqs, trace: l.trace, ..old(c).shadow(t) };
    lemma_looks(s);
    doorbells::lemma_parts(*final(c), final(ctx)@, s.looked_at());
}

} // verus!
