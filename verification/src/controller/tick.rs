//! What happens as time passes.
use vstd::prelude::*;

use crate::controller::ctx::{DeviceCtx, Event, Trace};
use crate::controller::events;
use crate::controller::events::Events;
use crate::controller::post::Link;
use crate::controller::shadow::Shadow;
use crate::controller::{
    NvmeController, SanitizeState, SelfTestCompleted, SelfTestInProgress, IO_QUEUE_SLOT_CAPACITY,
};
use crate::regs::{CompletionQueue, SubmissionQueue};

verus! {

/// Nanoseconds from `start` to `now`; 0 where `now` comes first.
pub open spec fn nanos_since(start: u64, now: u64) -> int {
    if now >= start {
        now - start
    } else {
        0
    }
}

/// Whole seconds from `start` to `now`.
pub open spec fn seconds_since(start: u64, now: u64) -> int {
    nanos_since(start, now) / 1_000_000_000
}

fn elapsed_secs(start: u64, now: u64) -> (r: u64)
    ensures
        r == seconds_since(start, now),
        r <= 18_446_744_073,
{
    now.saturating_sub(start) / 1_000_000_000
}

/// Progress of something that takes `total` seconds after `elapsed` of them, as a
/// fraction of `full`. What takes no time counts as one second.
pub open spec fn progress(elapsed: int, total: u32, full: int) -> int {
    let p = elapsed * full / (if total == 0 {
        1
    } else {
        total as int
    });
    if p > full {
        full
    } else {
        p
    }
}

fn scaled(elapsed: u64, total: u32, full: u64) -> (r: u64)
    requires
        elapsed <= 18_446_744_073,
        full <= 65535,
    ensures
        r == progress(elapsed as int, total, full as int),
        r <= full,
{
    let d: u64 = if total == 0 {
        1
    } else {
        total as u64
    };
    proof {
        assert(0 <= elapsed * full <= 18_446_744_073 * 65535) by (nonlinear_arith)
            requires
                elapsed <= 18_446_744_073,
                full <= 65535,
        ;
    }
    let p: u64 = elapsed * full / d;
    if p > full {
        full
    } else {
        p
    }
}

/// What the first part of a tick reads and changes: self-test, errors and sanitize.
#[verifier::ext_equal]
pub struct Housekeeping {
    pub self_test: Option<SelfTestInProgress>,
    pub self_test_last: Option<SelfTestCompleted>,
    pub errors_told: u64,
    pub sanitize: Option<SanitizeState>,
    pub sanitize_last_status: u8,
    pub events: Events,
}

impl Housekeeping {
    /// A self-test is running, and its time is up.
    pub open spec fn self_test_ends(self, now: u64) -> bool {
        self.self_test is Some && seconds_since(self.self_test->0.started_at, now)
            >= self.self_test->0.total_seconds
    }

    /// The self-test made progress; one whose time is up ends without error, and the
    /// host is told: event type 2, information 1, log page 6.
    pub open spec fn self_test_advanced(
        self,
        sqs: Map<u16, SubmissionQueue>,
        aggr_thr: u8,
        power_on: u64,
        now: u64,
    ) -> Housekeeping {
        match self.self_test {
            None => self,
            Some(t) => if self.self_test_ends(now) {
                Housekeeping {
                    self_test: None,
                    self_test_last: Some(
                        SelfTestCompleted {
                            stc: t.stc,
                            result: 0,
                            completed_at_poh: (seconds_since(power_on, now) / 3600) as u64,
                        },
                    ),
                    events: self.events.fired(sqs, aggr_thr, None, events::event_word(2, 1, 6)),
                    ..self
                }
            } else {
                Housekeeping {
                    self_test: Some(
                        SelfTestInProgress {
                            percent_complete: progress(
                                seconds_since(t.started_at, now),
                                t.total_seconds,
                                100,
                            ) as u8,
                            ..t
                        },
                    ),
                    ..self
                }
            },
        }
    }

    /// The host is told of errors that it was not told of: event type 0, information
    /// 0, log page 1.
    pub open spec fn errors_reported(
        self,
        sqs: Map<u16, SubmissionQueue>,
        aggr_thr: u8,
        errors: u64,
    ) -> Housekeeping {
        if errors > self.errors_told {
            Housekeeping {
                errors_told: errors,
                events: self.events.fired(sqs, aggr_thr, None, events::event_word(0, 0, 1)),
                ..self
            }
        } else {
            self
        }
    }

    /// A sanitize operation is running, and its time is up.
    pub open spec fn sanitize_ends(self, now: u64) -> bool {
        self.sanitize is Some && seconds_since(self.sanitize->0.started_at, now)
            >= self.sanitize->0.total_seconds
    }

    /// The sanitize operation made progress; one whose time is up ends with success,
    /// and the host is told: event type 2, information 5, log page 0x81.
    pub open spec fn sanitize_advanced(
        self,
        sqs: Map<u16, SubmissionQueue>,
        aggr_thr: u8,
        now: u64,
    ) -> Housekeeping {
        match self.sanitize {
            None => self,
            Some(t) => if self.sanitize_ends(now) {
                Housekeeping {
                    sanitize: None,
                    sanitize_last_status: 1,
                    events: self.events.fired(sqs, aggr_thr, None, events::event_word(2, 5, 0x81)),
                    ..self
                }
            } else {
                Housekeeping {
                    sanitize: Some(
                        SanitizeState {
                            percent_complete: progress(
                                seconds_since(t.started_at, now),
                                t.total_seconds,
                                65535,
                            ) as u16,
                            ..t
                        },
                    ),
                    ..self
                }
            },
        }
    }
}

impl CompletionQueue {
    /// Completions wait for an interrupt, and the aggregation time has passed since the
    /// last interrupt, or, where none was raised yet, since the first completion.
    pub open spec fn flush_due(self, aggr_time_100us: u8, now: u64) -> bool {
        &&& self.interrupt_enabled
        &&& self.pending_completions > 0
        &&& self.last_fire is Some
        &&& nanos_since(self.last_fire->0, now) >= aggr_time_100us * 100_000
    }
}

impl Link {
    /// The interrupts of the I/O queues up to number `n` that are due are raised, in
    /// ascending order.
    pub open spec fn flushed(self, aggr_time_100us: u8, n: nat) -> Link
        decreases n,
    {
        if n == 0 {
            self
        } else {
            let l = self.flushed(aggr_time_100us, (n - 1) as nat);
            let id = n as u16;
            if l.cqs.contains_key(id) && l.cqs[id].flush_due(aggr_time_100us, l.trace.now) {
                Link {
                    cqs: l.cqs.insert(
                        id,
                        CompletionQueue {
                            pending_completions: 0,
                            last_fire: Some(l.trace.now),
                            ..l.cqs[id]
                        },
                    ),
                    trace: l.trace.interrupt(l.cqs[id].interrupt_vector as u32),
                }
            } else {
                l
            }
        }
    }

    /// The interrupts that are due are raised; without an aggregation time none is.
    pub open spec fn coalescing_flushed(self, aggr_time_100us: u8) -> Link {
        if aggr_time_100us > 0 {
            self.flushed(aggr_time_100us, IO_QUEUE_SLOT_CAPACITY as nat)
        } else {
            self
        }
    }
}

impl Shadow {
    /// The doorbells of the I/O submission queues up to number `n` count as rung, in
    /// ascending order.
    pub open spec fn sqs_looked_at(self, n: nat) -> Shadow
        decreases n,
    {
        if n == 0 {
            self
        } else {
            let s = self.sqs_looked_at((n - 1) as nat);
            if self.sqs.contains_key(n as u16) {
                s.rung_at(n as u16, false)
            } else {
                s
            }
        }
    }

    /// The doorbells of the I/O completion queues up to number `n` count as rung, in
    /// ascending order.
    pub open spec fn cqs_looked_at(self, n: nat) -> Shadow
        decreases n,
    {
        if n == 0 {
            self
        } else {
            let s = self.cqs_looked_at((n - 1) as nat);
            if self.cqs.contains_key(n as u16) {
                s.rung_at(n as u16, true)
            } else {
                s
            }
        }
    }

    /// The shadow of every I/O queue that a look starts to read has an address.
    pub open spec fn look_fits(self) -> bool {
        &&& forall|q: u16|
            self.sqs.contains_key(q) ==> #[trigger] self.ring_fits(q, false) || q
                > IO_QUEUE_SLOT_CAPACITY
        &&& forall|q: u16|
            self.cqs.contains_key(q) ==> #[trigger] self.ring_fits(q, true) || q
                > IO_QUEUE_SLOT_CAPACITY
    }

    /// With shadow doorbells, every I/O queue is looked at: a ring that the host never
    /// made is made up for here.
    pub open spec fn looked_at(self) -> Shadow {
        if self.active() {
            self.sqs_looked_at(IO_QUEUE_SLOT_CAPACITY as nat).cqs_looked_at(
                IO_QUEUE_SLOT_CAPACITY as nat,
            )
        } else {
            self
        }
    }
}

impl NvmeController {
    /// What the first part of a tick reads and changes in this controller, on link `t`.
    pub open spec fn housekeeping(&self, t: Trace) -> Housekeeping {
        Housekeeping {
            self_test: self.self_test_in_progress,
            self_test_last: self.self_test_last,
            errors_told: self.aen_last_err_count,
            sanitize: self.sanitize,
            sanitize_last_status: self.sanitize_last_status,
            events: self.events(t),
        }
    }

    /// The state after the self-test, and after the errors were reported as well.
    pub open spec fn after_self_test(&self, t: Trace) -> Housekeeping {
        self.housekeeping(t).self_test_advanced(
            self.sqs@,
            self.irq_aggr_threshold,
            self.power_on_instant,
            t.now,
        )
    }

    pub open spec fn after_errors(&self, t: Trace) -> Housekeeping {
        self.after_self_test(t).errors_reported(
            self.sqs@,
            self.irq_aggr_threshold,
            self.stat_num_err_log_entries,
        )
    }

    /// The state after the first part of a tick.
    pub open spec fn kept(&self, t: Trace) -> Housekeeping {
        self.after_errors(t).sanitize_advanced(self.sqs@, self.irq_aggr_threshold, t.now)
    }

    /// The completion queues and the link after the interrupts that were due.
    pub open spec fn flushed_link(&self, t: Trace) -> Link {
        self.kept(t).events.link.coalescing_flushed(self.irq_aggr_time)
    }

    /// What shadow doorbells read and change, after a tick.
    pub open spec fn ticked_shadow(&self, t: Trace) -> Shadow {
        let l = self.flushed_link(t);
        (Shadow { cqs: l.cqs, trace: l.trace, ..self.shadow(t) }).looked_at()
    }

    /// Every event that a tick fires has a well formed queue to go to, and every shadow
    /// that it looks at has an address.
    pub open spec fn tick_fits(&self, t: Trace) -> bool {
        &&& self.housekeeping(t).self_test_ends(t.now) ==> self.events(t).fireable(None)
        &&& self.stat_num_err_log_entries > self.aen_last_err_count ==> self.after_self_test(
            t,
        ).events.fireable(None)
        &&& self.after_errors(t).sanitize_ends(t.now) ==> self.after_errors(t).events.fireable(None)
        &&& self.shadow(t).look_fits()
    }

    fn tick_self_test(&mut self, ctx: &mut DeviceCtx)
        requires
            old(self).housekeeping(old(ctx)@).self_test_ends(old(ctx)@.now) ==> old(self).events(
                old(ctx)@,
            ).fireable(None),
        ensures
            final(self).housekeeping(final(ctx)@) == old(self).after_self_test(old(ctx)@),
            final(self).same_but_housekeeping(*old(self)),
            final(ctx)@.now == old(ctx)@.now,
    {
        let now: u64 = ctx.now();
        let ghost before = self.housekeeping(ctx@);
        if let Some(t) = self.self_test_in_progress {
            let elapsed: u64 = elapsed_secs(t.started_at, now);
            let pct: u8 = scaled(elapsed, t.total_seconds, 100) as u8;
            if elapsed >= t.total_seconds as u64 {
                let poh: u64 = elapsed_secs(self.power_on_instant, now) / 3600;
                self.self_test_in_progress = None;
                self.self_test_last = Some(
                    SelfTestCompleted { stc: t.stc, result: 0, completed_at_poh: poh },
                );
                let _ = self.fire_aen(ctx, 0x02, 0x01, 0x06);
            } else {
                self.self_test_in_progress = Some(
                    SelfTestInProgress { percent_complete: pct, ..t },
                );
            }
        }
    }

    fn tick_errors(&mut self, ctx: &mut DeviceCtx)
        requires
            old(self).stat_num_err_log_entries > old(self).aen_last_err_count ==> old(self).events(
                old(ctx)@,
            ).fireable(None),
        ensures
            final(self).housekeeping(final(ctx)@) == old(self).housekeeping(
                old(ctx)@,
            ).errors_reported(
                old(self).sqs@,
                old(self).irq_aggr_threshold,
                old(self).stat_num_err_log_entries,
            ),
            final(self).same_but_housekeeping(*old(self)),
            final(ctx)@.now == old(ctx)@.now,
    {
        if self.stat_num_err_log_entries > self.aen_last_err_count {
            self.aen_last_err_count = self.stat_num_err_log_entries;
            let _ = self.fire_aen(ctx, 0x00, 0x00, 0x01);
        }
    }

    fn tick_sanitize(&mut self, ctx: &mut DeviceCtx)
        requires
            old(self).housekeeping(old(ctx)@).sanitize_ends(old(ctx)@.now) ==> old(self).events(
                old(ctx)@,
            ).fireable(None),
        ensures
            final(self).housekeeping(final(ctx)@) == old(self).housekeeping(
                old(ctx)@,
            ).sanitize_advanced(old(self).sqs@, old(self).irq_aggr_threshold, old(ctx)@.now),
            final(self).same_but_housekeeping(*old(self)),
            final(ctx)@.now == old(ctx)@.now,
    {
        let now: u64 = ctx.now();
        if let Some(t) = self.sanitize {
            let elapsed: u64 = elapsed_secs(t.started_at, now);
            let pct: u16 = scaled(elapsed, t.total_seconds, 65535) as u16;
            if elapsed >= t.total_seconds as u64 {
                self.sanitize = None;
                self.sanitize_last_status = 1;
                let _ = self.fire_aen(ctx, 0x02, 0x05, 0x81);
            } else {
                self.sanitize = Some(SanitizeState { percent_complete: pct, ..t });
            }
        }
    }

    /// `self` differs from `other` at most in what the first part of a tick changes.
    pub open spec fn same_but_housekeeping(&self, other: NvmeController) -> bool {
        &&& *self == (NvmeController {
            self_test_in_progress: self.self_test_in_progress,
            self_test_last: self.self_test_last,
            aen_last_err_count: self.aen_last_err_count,
            sanitize: self.sanitize,
            sanitize_last_status: self.sanitize_last_status,
            aen_pending: self.aen_pending,
            cqs: self.cqs,
            ..other
        })
        &&& self.cqs.capacity() == other.cqs.capacity()
    }

    /// Raises the interrupts that are due.
    fn tick_coalescing(&mut self, ctx: &mut DeviceCtx)
        ensures
            final(self).link(final(ctx)@) == old(self).link(old(ctx)@).coalescing_flushed(
                old(self).irq_aggr_time,
            ),
            *final(self) == (NvmeController { cqs: final(self).cqs, ..*old(self) }),
            final(self).cqs.capacity() == old(self).cqs.capacity(),
    {
        let aggr_time_100us: u8 = self.irq_aggr_time;
        if aggr_time_100us == 0 {
            return ;
        }
        let timeout: u64 = aggr_time_100us as u64 * 100_000;
        let ghost l = self.link(ctx@);
        let mut id: u16 = 0;
        while id < IO_QUEUE_SLOT_CAPACITY
            invariant
                id <= IO_QUEUE_SLOT_CAPACITY,
                timeout == aggr_time_100us * 100_000,
                self.link(ctx@) == l.flushed(aggr_time_100us, id as nat),
                *self == (NvmeController { cqs: self.cqs, ..*old(self) }),
                self.cqs.capacity() == old(self).cqs.capacity(),
            decreases IO_QUEUE_SLOT_CAPACITY - id,
        {
            id += 1;
            let now: u64 = ctx.now();
            let ghost before = self.link(ctx@);
            if let Some(cq) = self.cqs.get_mut(&id) {
                if cq.interrupt_enabled && cq.pending_completions != 0 {
                    if let Some(last) = cq.last_fire {
                        if now.saturating_sub(last) >= timeout {
                            cq.pending_completions = 0;
                            cq.last_fire = Some(now);
                            ctx.fire_interrupt(cq.interrupt_vector as u32);
                        }
                    }
                }
            }
            assert(self.link(ctx@) =~= l.flushed(aggr_time_100us, id as nat));
        }
    }

    /// Looks at the shadow of every I/O queue.
    fn tick_shadow(&mut self, ctx: &mut DeviceCtx)
        requires
            old(self).shadow(old(ctx)@).look_fits(),
        ensures
            final(self).shadow(final(ctx)@) == old(self).shadow(old(ctx)@).looked_at(),
            final(self).same_but_shadow(*old(self)),
    {
        if !self.dbbuf_active() {
            return ;
        }
        let ghost s = self.shadow(ctx@);
        assert(s.active());
        let mut id: u16 = 0;
        while id < IO_QUEUE_SLOT_CAPACITY
            invariant
                id <= IO_QUEUE_SLOT_CAPACITY,
                s.active(),
                s == old(self).shadow(old(ctx)@),
                s.look_fits(),
                self.shadow(ctx@) == s.sqs_looked_at(id as nat),
                self.shadow(ctx@).same_queues(s),
                s.inflight.subset_of(self.shadow(ctx@).inflight),
                self.same_but_shadow(*old(self)),
            decreases IO_QUEUE_SLOT_CAPACITY - id,
        {
            id += 1;
            if self.sqs.contains_key(&id) {
                assert(s.ring_fits(id, false));
                self.start_shadow_sq_poll(ctx, id);
            }
        }
        let ghost s1 = self.shadow(ctx@);
        let mut id: u16 = 0;
        while id < IO_QUEUE_SLOT_CAPACITY
            invariant
                id <= IO_QUEUE_SLOT_CAPACITY,
                s.active(),
                s1.same_queues(s),
                s.look_fits(),
                self.shadow(ctx@) == s1.cqs_looked_at(id as nat),
                self.shadow(ctx@).same_queues(s),
                s.inflight.subset_of(self.shadow(ctx@).inflight),
                self.same_but_shadow(*old(self)),
            decreases IO_QUEUE_SLOT_CAPACITY - id,
        {
            id += 1;
            if self.cqs.contains_key(&id) {
                assert(s.ring_fits(id, true));
                self.start_shadow_cq_poll(ctx, id);
            }
        }
    }

    /// Time has passed; `ctx` tells what time it is. The self-test and the sanitize
    /// operation make progress, the host is told of new errors, interrupts that were
    /// held back are raised when they are due, and the shadow doorbells are looked at.
    pub fn tick(&mut self, ctx: &mut DeviceCtx)
        requires
            old(self).tick_fits(old(ctx)@),
        ensures
            ({
                let k = old(self).kept(old(ctx)@);
                &&& final(self).self_test_in_progress == k.self_test
                &&& final(self).self_test_last == k.self_test_last
                &&& final(self).aen_last_err_count == k.errors_told
                &&& final(self).sanitize == k.sanitize
                &&& final(self).sanitize_last_status == k.sanitize_last_status
                &&& final(self).aen_pending@ == k.events.aers
            }),
            final(self).shadow(final(ctx)@) == old(self).ticked_shadow(old(ctx)@),
            final(self).same_but_shadow(
                NvmeController {
                    self_test_in_progress: final(self).self_test_in_progress,
                    self_test_last: final(self).self_test_last,
                    aen_last_err_count: final(self).aen_last_err_count,
                    sanitize: final(self).sanitize,
                    sanitize_last_status: final(self).sanitize_last_status,
                    aen_pending: final(self).aen_pending,
                    ..*old(self)
                },
            ),
    {
        let ghost t = ctx@;
        self.tick_self_test(ctx);
        self.tick_errors(ctx);
        self.tick_sanitize(ctx);
        assert(self.housekeeping(ctx@) == old(self).kept(t));
        self.tick_coalescing(ctx);
        let ghost l = old(self).flushed_link(t);
        assert(self.shadow(ctx@) =~= (Shadow { cqs: l.cqs, trace: l.trace, ..old(self).shadow(t) }));
        proof {
            lemma_link_keeps_queue_ids(*old(self), t);
            assert forall|q: u16| self.cqs@.contains_key(q) implies #[trigger] self.shadow(
                ctx@,
            ).ring_fits(q, true) || q > IO_QUEUE_SLOT_CAPACITY by {
                assert(old(self).shadow(t).ring_fits(q, true) || q > IO_QUEUE_SLOT_CAPACITY);
            }
            assert forall|q: u16| self.sqs@.contains_key(q) implies #[trigger] self.shadow(
                ctx@,
            ).ring_fits(q, false) || q > IO_QUEUE_SLOT_CAPACITY by {
                assert(old(self).shadow(t).ring_fits(q, false) || q > IO_QUEUE_SLOT_CAPACITY);
            }
        }
        self.tick_shadow(ctx);
    }
}

impl Shadow {
    /// The same queues, and the same buffers.
    pub open spec fn same_queues(self, other: Shadow) -> bool {
        &&& self.sqs == other.sqs
        &&& self.cqs == other.cqs
        &&& self.shadow_gpa == other.shadow_gpa
        &&& self.event_idx_gpa == other.event_idx_gpa
    }
}

proof fn lemma_flush_keeps_ids(l: Link, aggr_time_100us: u8, n: nat)
    ensures
        l.flushed(aggr_time_100us, n).cqs.dom() == l.cqs.dom(),
    decreases n,
{
    if n > 0 {
        lemma_flush_keeps_ids(l, aggr_time_100us, (n - 1) as nat);
        assert(l.flushed(aggr_time_100us, n).cqs.dom() =~= l.cqs.dom());
    }
}

proof fn lemma_fired_keeps_ids(
    e: Events,
    sqs: Map<u16, SubmissionQueue>,
    aggr_thr: u8,
    filter: Option<u32>,
    word: u32,
)
    ensures
        e.fired(sqs, aggr_thr, filter, word).link.cqs.dom() == e.link.cqs.dom(),
{
    assert(e.fired(sqs, aggr_thr, filter, word).link.cqs.dom() =~= e.link.cqs.dom());
}

pub(crate) proof fn lemma_link_keeps_queue_ids(c: NvmeController, t: Trace)
    ensures
        c.flushed_link(t).cqs.dom() == c.cqs@.dom(),
{
    let (sqs, thr) = (c.sqs@, c.irq_aggr_threshold);
    lemma_fired_keeps_ids(c.events(t), sqs, thr, None, events::event_word(2, 1, 6));
    lemma_fired_keeps_ids(c.after_self_test(t).events, sqs, thr, None, events::event_word(0, 0, 1));
    lemma_fired_keeps_ids(c.after_errors(t).events, sqs, thr, None, events::event_word(2, 5, 0x81));
    lemma_flush_keeps_ids(c.kept(t).events.link, c.irq_aggr_time, IO_QUEUE_SLOT_CAPACITY as nat);
}

/// Progress never goes back and never beyond the end, and it is complete when the time
/// is up.
pub proof fn law_progress_is_monotone(a: int, b: int, total: u32, full: int)
    requires
        0 <= a <= b,
        0 < full,
    ensures
        0 <= progress(a, total, full) <= progress(b, total, full) <= full,
        a >= total && total > 0 ==> progress(a, total, full) == full,
{
    let d = if total == 0 {
        1
    } else {
        total as int
    };
    assert(a * full <= b * full && 0 <= a * full) by (nonlinear_arith)
        requires
            0 <= a <= b,
            0 < full,
    ;
    vstd::arithmetic::div_mod::lemma_div_is_ordered(a * full, b * full, d);
    vstd::arithmetic::div_mod::lemma_div_pos_is_pos(a * full, d);
    if a >= total && total > 0 {
        assert(a * full >= d * full) by (nonlinear_arith)
            requires
                a >= d,
                0 < full,
        ;
        vstd::arithmetic::div_mod::lemma_div_is_ordered(d * full, a * full, d);
        vstd::arithmetic::div_mod::lemma_div_multiples_vanish(full, d);
    }
}

/// The end of a self-test, of a sanitize operation, and new errors are each told once: a
/// second look at the same time changes nothing.
pub proof fn law_housekeeping_tells_once(
    h: Housekeeping,
    sqs: Map<u16, SubmissionQueue>,
    aggr_thr: u8,
    power_on: u64,
    now: u64,
    errors: u64,
)
    ensures
        h.self_test_ends(now) ==> ({
            let k = h.self_test_advanced(sqs, aggr_thr, power_on, now);
            k.self_test_advanced(sqs, aggr_thr, power_on, now) == k
        }),
        h.sanitize_ends(now) ==> ({
            let k = h.sanitize_advanced(sqs, aggr_thr, now);
            k.sanitize_advanced(sqs, aggr_thr, now) == k
        }),
        ({
            let k = h.errors_reported(sqs, aggr_thr, errors);
            k.errors_reported(sqs, aggr_thr, errors) == k
        }),
{
}

/// Raising the interrupts that are due changes exactly the queues whose interrupt is due,
/// whatever their number, and leaves the admin queue alone.
pub proof fn law_flush_is_exact(l: Link, aggr_time_100us: u8, n: nat, id: u16)
    requires
        n <= IO_QUEUE_SLOT_CAPACITY,
        l.cqs.contains_key(id),
    ensures
        l.flushed(aggr_time_100us, n).cqs.contains_key(id),
        l.flushed(aggr_time_100us, n).cqs[id] == (if 1 <= id <= n && l.cqs[id].flush_due(
            aggr_time_100us,
            l.trace.now,
        ) {
            CompletionQueue {
                pending_completions: 0,
                last_fire: Some(l.trace.now),
                ..l.cqs[id]
            }
        } else {
            l.cqs[id]
        }),
    decreases n,
{
    if n > 0 {
        law_flush_is_exact(l, aggr_time_100us, (n - 1) as nat, id);
        lemma_flush_keeps_now(l, aggr_time_100us, (n - 1) as nat);
    }
}

/// A queue whose interrupt is due gets it, and no request made before is touched.
pub proof fn law_due_interrupt_is_raised(l: Link, aggr_time_100us: u8, n: nat, id: u16)
    requires
        n <= IO_QUEUE_SLOT_CAPACITY,
        l.cqs.contains_key(id),
    ensures
        l.trace.extended_by(l.flushed(aggr_time_100us, n).trace),
        1 <= id <= n && l.cqs[id].flush_due(aggr_time_100us, l.trace.now) ==> l.flushed(
            aggr_time_100us,
            n,
        ).trace.events.contains(
            Event::FireInterrupt { msix_index: l.cqs[id].interrupt_vector as u32 },
        ),
    decreases n,
{
    if n > 0 {
        let before = l.flushed(aggr_time_100us, (n - 1) as nat);
        let after = l.flushed(aggr_time_100us, n);
        let e = Event::FireInterrupt { msix_index: l.cqs[id].interrupt_vector as u32 };
        law_due_interrupt_is_raised(l, aggr_time_100us, (n - 1) as nat, id);
        law_flush_is_exact(l, aggr_time_100us, (n - 1) as nat, id);
        lemma_flush_keeps_now(l, aggr_time_100us, (n - 1) as nat);
        assert(before.trace.events.is_prefix_of(after.trace.events));
        if before.trace.events.contains(e) {
            let i = choose|i: int| 0 <= i < before.trace.events.len() && before.trace.events[i] == e;
            assert(after.trace.events[i] == e);
        }
        if id == n && l.cqs[id].flush_due(aggr_time_100us, l.trace.now) {
            assert(after.trace.events.last() == e);
            assert(after.trace.events[after.trace.events.len() - 1] == e);
        }
    }
}

/// An interrupt that was raised because it was due is not due any more.
pub proof fn law_flushed_queue_is_not_due(l: Link, aggr_time_100us: u8, n: nat, id: u16)
    requires
        1 <= id <= n <= IO_QUEUE_SLOT_CAPACITY,
        l.cqs.contains_key(id),
    ensures
        l.flushed(aggr_time_100us, n).cqs.contains_key(id),
        l.flushed(aggr_time_100us, n).trace.now == l.trace.now,
        !l.flushed(aggr_time_100us, n).cqs[id].flush_due(aggr_time_100us, l.trace.now),
{
    law_flush_is_exact(l, aggr_time_100us, n, id);
    lemma_flush_keeps_now(l, aggr_time_100us, n);
}

proof fn lemma_flush_keeps_now(l: Link, aggr_time_100us: u8, n: nat)
    ensures
        l.flushed(aggr_time_100us, n).trace.now == l.trace.now,
    decreases n,
{
    if n > 0 {
        lemma_flush_keeps_now(l, aggr_time_100us, (n - 1) as nat);
    }
}

} // verus!
