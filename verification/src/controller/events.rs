//! Logs and asynchronous events.
use vstd::prelude::*;

use crate::cmd;
use crate::cmd::Cqe;
use crate::controller::ctx;
use crate::controller::ctx::{DeviceCtx, Trace};
use crate::controller::post::Link;
use crate::controller::{Aer, ErrorLogEntry, NvmeController, ReservationNotification};
use crate::regs::SubmissionQueue;

verus! {

/// Entries that the error information log holds.
pub const ERROR_LOG_ENTRIES: usize = 64;

/// Entries that the reservation notification log holds.
pub const RESERVATION_LOG_ENTRIES: usize = 32;

/// The last `n` elements of `s`, or all of them where there are fewer.
pub open spec fn last_of<T>(s: Seq<T>, n: nat) -> Seq<T> {
    if s.len() > n {
        s.subrange(s.len() - n, s.len() as int)
    } else {
        s
    }
}

/// Whether `a` is a request of the connection that `filter` names; all are where it
/// names none.
pub open spec fn aer_matches(a: Aer, filter: Option<u32>) -> bool {
    filter is None || a.conn_id == filter->0
}

fn matches_filter(a: &Aer, filter: Option<u32>) -> (r: bool)
    ensures
        r == aer_matches(*a, filter),
{
    match filter {
        Some(want) => a.conn_id == want,
        None => true,
    }
}

/// The position of the oldest matching request, or the number of requests where none
/// matches.
pub open spec fn first_match(s: Seq<Aer>, filter: Option<u32>) -> int
    decreases s.len(),
{
    if s.len() == 0 || aer_matches(s[0], filter) {
        0
    } else {
        1 + first_match(s.drop_first(), filter)
    }
}

/// The position that `first_match` gives is that of a matching request with none
/// before it.
pub proof fn law_first_match(s: Seq<Aer>, filter: Option<u32>)
    ensures
        0 <= first_match(s, filter) <= s.len(),
        first_match(s, filter) < s.len() ==> aer_matches(s[first_match(s, filter)], filter),
        forall|i: int| 0 <= i < first_match(s, filter) ==> !aer_matches(#[trigger] s[i], filter),
    decreases s.len(),
{
    if s.len() > 0 && !aer_matches(s[0], filter) {
        law_first_match(s.drop_first(), filter);
        assert forall|i: int| 0 <= i < first_match(s, filter) implies !aer_matches(
            #[trigger] s[i],
            filter,
        ) by {
            if i > 0 {
                assert(s[i] == s.drop_first()[i - 1]);
            }
        }
    }
}

proof fn lemma_first_match_is(s: Seq<Aer>, filter: Option<u32>, n: int)
    requires
        0 <= n <= s.len(),
        n < s.len() ==> aer_matches(s[n], filter),
        forall|i: int| 0 <= i < n ==> !aer_matches(#[trigger] s[i], filter),
    ensures
        first_match(s, filter) == n,
{
    law_first_match(s, filter);
    let m = first_match(s, filter);
    if m < n {
        assert(!aer_matches(s[m], filter));
    }
    if n < m {
        assert(!aer_matches(s[n], filter));
    }
}

/// What an event does: the requests that wait, the completion queues and the link.
#[verifier::ext_equal]
pub struct Events {
    pub aers: Seq<Aer>,
    pub link: Link,
}

/// Type, information and log page of an event, as its completion reports them: in
/// bits 2:0, 15:8 and 23:16.
pub open spec fn event_word(aen_type: u8, aen_info: u8, log_id: u8) -> u32 {
    ((aen_type as u32) & 0x7) | ((aen_info as u32) << 8) | ((log_id as u32) << 16)
}

/// The head pointer that a completion of queue `sq_id` reports now.
pub open spec fn live_head(sqs: Map<u16, SubmissionQueue>, sq_id: u16) -> u16 {
    if sqs.contains_key(sq_id) {
        sqs[sq_id].head as u16
    } else {
        0
    }
}

impl Events {
    /// There is a request for the event.
    pub open spec fn can_fire(self, filter: Option<u32>) -> bool {
        first_match(self.aers, filter) < self.aers.len()
    }

    /// The completion queue of the request for the event, if there are both, is well
    /// formed.
    pub open spec fn fireable(self, filter: Option<u32>) -> bool {
        self.can_fire(filter) ==> self.link.postable(
            self.aers[first_match(self.aers, filter)].cq_id,
        )
    }

    /// An event happened: the oldest matching request completes with it. Without such
    /// a request the event is lost.
    pub open spec fn fired(
        self,
        sqs: Map<u16, SubmissionQueue>,
        aggr_thr: u8,
        filter: Option<u32>,
        word: u32,
    ) -> Events {
        if self.can_fire(filter) {
            let i = first_match(self.aers, filter);
            let a = self.aers[i];
            let cqe = Cqe {
                cdw0: word,
                ..cmd::cqe_of(
                    a.cid,
                    a.sq_id,
                    live_head(sqs, a.sq_id),
                    self.link.phase(a.cq_id),
                    0,
                )
            };
            Events { aers: self.aers.remove(i), link: self.link.posted(aggr_thr, a.cq_id, cqe) }
        } else {
            self
        }
    }
}

/// The entries of `s` that are not of connection `conn_id`, in order.
pub open spec fn other_conns(s: Seq<Aer>, conn_id: u32) -> Seq<Aer> {
    s.filter(|a: Aer| a.conn_id != conn_id)
}

/// The entries of `s` of connection `conn_id`, in order.
pub open spec fn of_conn(s: Seq<Aer>, conn_id: u32) -> Seq<Aer> {
    s.filter(|a: Aer| a.conn_id == conn_id)
}

impl NvmeController {
    /// What events change in this controller, on link `t`.
    pub open spec fn events(&self, t: Trace) -> Events {
        Events { aers: self.aen_pending@, link: self.link(t) }
    }

    /// Enters a reservation notification; the log keeps the last 32.
    pub fn push_reservation_notification(&mut self, log_page_type: u8, nsid: u32)
        ensures
            final(self).reservation_notification_count == ctx::successor(
                old(self).reservation_notification_count,
            ),
            ({
                let log = old(self).reservation_notification_log@;
                let e = ReservationNotification {
                    log_page_count: ctx::successor(old(self).reservation_notification_count),
                    log_page_type,
                    nsid,
                };
                final(self).reservation_notification_log@ == (if log.len()
                    >= RESERVATION_LOG_ENTRIES {
                    log.drop_first().push(e)
                } else {
                    log.push(e)
                })
            }),
            *final(self) == (NvmeController {
                reservation_notification_count: final(self).reservation_notification_count,
                reservation_notification_log: final(self).reservation_notification_log,
                ..*old(self)
            }),
    {
        self.reservation_notification_count = self.reservation_notification_count.wrapping_add(1);
        let entry = ReservationNotification {
            log_page_count: self.reservation_notification_count,
            log_page_type,
            nsid,
        };
        if self.reservation_notification_log.len() >= RESERVATION_LOG_ENTRIES {
            let _ = self.reservation_notification_log.pop_front();
        }
        self.reservation_notification_log.push_back(entry);
    }

    /// Enters an error under the current number of errors; the log keeps the last 64.
    pub fn push_error_log(&mut self, sq_id: u16, cid: u16, status_field: u16, lba: u64, nsid: u32)
        ensures
            final(self).error_log@ == last_of(
                old(self).error_log@.push(
                    ErrorLogEntry {
                        error_count: old(self).stat_num_err_log_entries,
                        sq_id,
                        cid,
                        status_field,
                        param_loc: 0,
                        lba,
                        nsid,
                    },
                ),
                ERROR_LOG_ENTRIES as nat,
            ),
            *final(self) == (NvmeController { error_log: final(self).error_log, ..*old(self) }),
    {
        let entry = ErrorLogEntry {
            error_count: self.stat_num_err_log_entries,
            sq_id,
            cid,
            status_field,
            param_loc: 0,
            lba,
            nsid,
        };
        self.error_log.push_back(entry);
        let ghost full = self.error_log@;
        while self.error_log.len() > ERROR_LOG_ENTRIES
            invariant
                self.error_log@.len() <= full.len(),
                self.error_log@.len() >= 64 || self.error_log@.len() == full.len(),
                self.error_log@ == full.subrange(
                    full.len() - self.error_log@.len(),
                    full.len() as int,
                ),
                *self == (NvmeController { error_log: self.error_log, ..*old(self) }),
            decreases self.error_log@.len(),
        {
            let _ = self.error_log.pop_front();
        }
    }

    /// Queues an asynchronous event request of the connection whose command is being
    /// dispatched.
    pub fn queue_aer(&mut self, cid: u16, sq_id: u16, cq_id: u16)
        ensures
            final(self).aen_pending@ == old(self).aen_pending@.push(
                Aer { cid, sq_id, cq_id, conn_id: old(self).current_dispatch_conn_id },
            ),
            *final(self) == (NvmeController { aen_pending: final(self).aen_pending, ..*old(self) }),
    {
        self.aen_pending.push_back(
            Aer { cid, sq_id, cq_id, conn_id: self.current_dispatch_conn_id },
        );
    }

    fn fire_aen_inner(
        &mut self,
        ctx: &mut DeviceCtx,
        aen_type: u8,
        aen_info: u8,
        log_id: u8,
        conn_id_filter: Option<u32>,
    ) -> (r: bool)
        requires
            aen_type < 8,
            old(self).events(old(ctx)@).fireable(conn_id_filter),
        ensures
            r == old(self).events(old(ctx)@).can_fire(conn_id_filter),
            final(self).events(final(ctx)@) == old(self).events(old(ctx)@).fired(
                old(self).sqs@,
                old(self).irq_aggr_threshold,
                conn_id_filter,
                event_word(aen_type, aen_info, log_id),
            ),
            *final(self) == (NvmeController {
                aen_pending: final(self).aen_pending,
                cqs: final(self).cqs,
                ..*old(self)
            }),
            final(self).cqs.capacity() == old(self).cqs.capacity(),
    {
        let n: usize = self.aen_pending.len();
        let mut i: usize = 0;
        while i < n && !matches_filter(&self.aen_pending[i], conn_id_filter)
            invariant
                i <= n,
                n == self.aen_pending@.len(),
                forall|j: int|
                    0 <= j < i ==> !aer_matches(#[trigger] self.aen_pending@[j], conn_id_filter),
            decreases n - i,
        {
            i += 1;
        }
        proof {
            lemma_first_match_is(self.aen_pending@, conn_id_filter, i as int);
        }
        let a: Aer = match self.aen_pending.remove(i) {
            Some(a) => a,
            None => {
                return false;
            },
        };
        let sq_head_now: u16 = match self.sqs.get(&a.sq_id) {
            Some(q) => q.head as u16,
            None => 0,
        };
        let phase: u8 = self.phase_of(a.cq_id);
        let mut cqe = Cqe::success(a.cid, a.sq_id, sq_head_now, phase);
        cqe.cdw0 = (aen_type as u32 & 0x7) | ((aen_info as u32) << 8) | ((log_id as u32) << 16);
        self.post_cqe(ctx, a.cq_id, cqe);
        true
    }

    /// An event happened: completes the oldest request, whatever connection it is of.
    pub fn fire_aen(&mut self, ctx: &mut DeviceCtx, aen_type: u8, aen_info: u8, log_id: u8) -> (r:
        bool)
        requires
            aen_type < 8,
            old(self).events(old(ctx)@).fireable(None),
        ensures
            r == old(self).events(old(ctx)@).can_fire(None),
            final(self).events(final(ctx)@) == old(self).events(old(ctx)@).fired(
                old(self).sqs@,
                old(self).irq_aggr_threshold,
                None,
                event_word(aen_type, aen_info, log_id),
            ),
            *final(self) == (NvmeController {
                aen_pending: final(self).aen_pending,
                cqs: final(self).cqs,
                ..*old(self)
            }),
            final(self).cqs.capacity() == old(self).cqs.capacity(),
    {
        self.fire_aen_inner(ctx, aen_type, aen_info, log_id, None)
    }

    /// An event happened for connection `conn_id`: completes its oldest request.
    pub fn fire_aen_for_conn(
        &mut self,
        ctx: &mut DeviceCtx,
        aen_type: u8,
        aen_info: u8,
        log_id: u8,
        conn_id: u32,
    ) -> (r: bool)
        requires
            aen_type < 8,
            old(self).events(old(ctx)@).fireable(Some(conn_id)),
        ensures
            r == old(self).events(old(ctx)@).can_fire(Some(conn_id)),
            final(self).events(final(ctx)@) == old(self).events(old(ctx)@).fired(
                old(self).sqs@,
                old(self).irq_aggr_threshold,
                Some(conn_id),
                event_word(aen_type, aen_info, log_id),
            ),
            *final(self) == (NvmeController {
                aen_pending: final(self).aen_pending,
                cqs: final(self).cqs,
                ..*old(self)
            }),
            final(self).cqs.capacity() == old(self).cqs.capacity(),
    {
        self.fire_aen_inner(ctx, aen_type, aen_info, log_id, Some(conn_id))
    }

    /// See `fire_aen`.
    pub fn nvme_fire_aen(&mut self, ctx: &mut DeviceCtx, aen_type: u8, aen_info: u8, log_id: u8) -> (r:
        bool)
        requires
            aen_type < 8,
            old(self).events(old(ctx)@).fireable(None),
        ensures
            r == old(self).events(old(ctx)@).can_fire(None),
            final(self).events(final(ctx)@) == old(self).events(old(ctx)@).fired(
                old(self).sqs@,
                old(self).irq_aggr_threshold,
                None,
                event_word(aen_type, aen_info, log_id),
            ),
            *final(self) == (NvmeController {
                aen_pending: final(self).aen_pending,
                cqs: final(self).cqs,
                ..*old(self)
            }),
            final(self).cqs.capacity() == old(self).cqs.capacity(),
    {
        self.fire_aen(ctx, aen_type, aen_info, log_id)
    }

    /// See `fire_aen_for_conn`.
    pub fn nvme_fire_aen_for_conn(
        &mut self,
        ctx: &mut DeviceCtx,
        aen_type: u8,
        aen_info: u8,
        log_id: u8,
        conn_id: u32,
    ) -> (r: bool)
        requires
            aen_type < 8,
            old(self).events(old(ctx)@).fireable(Some(conn_id)),
        ensures
            r == old(self).events(old(ctx)@).can_fire(Some(conn_id)),
            final(self).events(final(ctx)@) == old(self).events(old(ctx)@).fired(
                old(self).sqs@,
                old(self).irq_aggr_threshold,
                Some(conn_id),
                event_word(aen_type, aen_info, log_id),
            ),
            *final(self) == (NvmeController {
                aen_pending: final(self).aen_pending,
                cqs: final(self).cqs,
                ..*old(self)
            }),
            final(self).cqs.capacity() == old(self).cqs.capacity(),
    {
        self.fire_aen_for_conn(ctx, aen_type, aen_info, log_id, conn_id)
    }

    /// How many requests wait.
    pub fn nvme_pending_aer_count(&self) -> (r: usize)
        ensures
            r == self.aen_pending@.len(),
    {
        self.aen_pending.len()
    }

    /// How many requests of connection `conn_id` wait.
    pub fn nvme_pending_aer_count_for_conn(&self, conn_id: u32) -> (r: usize)
        ensures
            r == of_conn(self.aen_pending@, conn_id).len(),
    {
        let n: usize = self.aen_pending.len();
        let mut count: usize = 0;
        let mut i: usize = 0;
        let ghost s = self.aen_pending@;
        proof {
            lemma_filter_take(s, |a: Aer| a.conn_id == conn_id, 0);
        }
        while i < n
            invariant
                i <= n,
                n == s.len(),
                s == self.aen_pending@,
                count <= i,
                count == of_conn(s.take(i as int), conn_id).len(),
            decreases n - i,
        {
            proof {
                lemma_filter_take(s, |a: Aer| a.conn_id == conn_id, i as int);
            }
            if self.aen_pending[i].conn_id == conn_id {
                count += 1;
            }
            i += 1;
        }
        assert(s.take(n as int) =~= s);
        count
    }

    /// Drops the requests of connection `conn_id`, which is gone; the result tells how
    /// many there were.
    pub fn nvme_cleanup_conn_aers(&mut self, conn_id: u32) -> (r: usize)
        ensures
            final(self).aen_pending@ == other_conns(old(self).aen_pending@, conn_id),
            r == of_conn(old(self).aen_pending@, conn_id).len(),
            *final(self) == (NvmeController { aen_pending: final(self).aen_pending, ..*old(self) }),
    {
        let cleaned: usize = self.nvme_pending_aer_count_for_conn(conn_id);
        let ghost s = self.aen_pending@;
        let ghost keep = |a: Aer| a.conn_id != conn_id;
        let n: usize = self.aen_pending.len();
        let mut i: usize = 0;
        proof {
            lemma_filter_take(s, keep, 0);
            assert(s.take(0).filter(keep) + s.skip(0) =~= s);
        }
        while i < n
            invariant
                i <= n,
                n == s.len(),
                keep == (|a: Aer| a.conn_id != conn_id),
                self.aen_pending@.len() == n - i + s.take(i as int).filter(keep).len(),
                self.aen_pending@ =~= s.skip(i as int) + s.take(i as int).filter(keep),
                *self == (NvmeController { aen_pending: self.aen_pending, ..*old(self) }),
            decreases n - i,
        {
            let ghost kept = s.take(i as int).filter(keep);
            proof {
                lemma_filter_take(s, keep, i as int);
            }
            assert(self.aen_pending@[0] == s[i as int]);
            assert(self.aen_pending@.subrange(1, self.aen_pending@.len() as int) =~= s.skip(i + 1)
                + kept);
            if let Some(a) = self.aen_pending.pop_front() {
                if a.conn_id != conn_id {
                    self.aen_pending.push_back(a);
                }
            }
            i += 1;
        }
        assert(s.take(n as int) =~= s);
        assert(s.skip(n as int) =~= Seq::empty());
        cleaned
    }

    /// Whether any request waits.
    pub fn nvme_has_pending_aen_event(&self) -> (r: bool)
        ensures
            r == (self.aen_pending@.len() > 0),
    {
        self.nvme_pending_aer_count() > 0
    }

    /// Changes the asymmetric namespace access state and tells the host. A state other
    /// than 1 to 4, or the present one, changes nothing.
    pub fn set_ana_state(&mut self, ctx: &mut DeviceCtx, new_state: u8) -> (r: bool)
        requires
            1 <= new_state <= 4 && new_state != old(self).ana_state ==> old(self).events(
                old(ctx)@,
            ).fireable(None),
        ensures
            r == (1 <= new_state <= 4 && new_state != old(self).ana_state),
            r ==> {
                &&& final(self).ana_state == new_state
                &&& final(self).ana_change_count == ctx::successor(old(self).ana_change_count)
                &&& final(self).events(final(ctx)@) == old(self).events(old(ctx)@).fired(
                    old(self).sqs@,
                    old(self).irq_aggr_threshold,
                    None,
                    event_word(0x02, 0x03, 0x0c),
                )
                &&& *final(self) == (NvmeController {
                    ana_state: final(self).ana_state,
                    ana_change_count: final(self).ana_change_count,
                    aen_pending: final(self).aen_pending,
                    cqs: final(self).cqs,
                    ..*old(self)
                })
                &&& final(self).cqs.capacity() == old(self).cqs.capacity()
            },
            !r ==> *final(self) == *old(self) && final(ctx)@ == old(ctx)@,
    {
        if new_state < 1 || new_state > 4 {
            return false;
        }
        if self.ana_state == new_state {
            return false;
        }
        self.ana_state = new_state;
        self.ana_change_count = self.ana_change_count.wrapping_add(1);
        let _ = self.fire_aen(ctx, 0x02, 0x03, 0x0c);
        true
    }
}

/// Filtering one element more keeps it or drops it.
proof fn lemma_filter_take(s: Seq<Aer>, p: spec_fn(Aer) -> bool, i: int)
    requires
        0 <= i <= s.len(),
    ensures
        s.take(0).filter(p) == Seq::<Aer>::empty(),
        i < s.len() ==> s.take(i + 1).filter(p) == (if p(s[i]) {
            s.take(i).filter(p).push(s[i])
        } else {
            s.take(i).filter(p)
        }),
{
    reveal(Seq::filter);
    assert(s.take(0) =~= Seq::<Aer>::empty());
    if i < s.len() {
        assert(s.take(i + 1).drop_last() =~= s.take(i));
    }
}

proof fn lemma_filter_remove(s: Seq<Aer>, p: spec_fn(Aer) -> bool, i: int)
    requires
        0 <= i < s.len(),
        !p(s[i]),
    ensures
        s.remove(i).filter(p) == s.filter(p),
{
    let (a, b) = (s.take(i), s.skip(i + 1));
    assert(s.remove(i) =~= a + b);
    assert(s =~= a + seq![s[i]] + b);
    Seq::filter_distributes_over_add(a, b, p);
    Seq::filter_distributes_over_add(a + seq![s[i]], b, p);
    Seq::filter_distributes_over_add(a, seq![s[i]], p);
    lemma_filter_one(s[i], p);
    assert(a.filter(p) + Seq::<Aer>::empty() =~= a.filter(p));
}

proof fn lemma_filter_one(x: Aer, p: spec_fn(Aer) -> bool)
    ensures
        seq![x].filter(p) == (if p(x) {
            seq![x]
        } else {
            Seq::<Aer>::empty()
        }),
{
    reveal(Seq::filter);
    assert(seq![x].drop_last() =~= Seq::<Aer>::empty());
    assert(Seq::<Aer>::empty().filter(p) =~= Seq::<Aer>::empty());
    assert(Seq::<Aer>::empty().push(x) =~= seq![x]);
}

/// An event for one connection leaves the requests of every other connection alone, in
/// their order.
pub proof fn law_event_stays_with_its_connection(
    e: Events,
    sqs: Map<u16, SubmissionQueue>,
    aggr_thr: u8,
    conn_id: u32,
    word: u32,
    other: u32,
)
    requires
        other != conn_id,
    ensures
        of_conn(e.fired(sqs, aggr_thr, Some(conn_id), word).aers, other) == of_conn(e.aers, other),
{
    law_first_match(e.aers, Some(conn_id));
    if e.can_fire(Some(conn_id)) {
        lemma_filter_remove(
            e.aers,
            |a: Aer| a.conn_id == other,
            first_match(e.aers, Some(conn_id)),
        );
    }
}

/// Events complete the requests of a connection in the order in which it made them.
pub proof fn law_events_are_first_in_first_out(
    e: Events,
    sqs: Map<u16, SubmissionQueue>,
    aggr_thr: u8,
    conn_id: u32,
    word: u32,
)
    requires
        e.can_fire(Some(conn_id)),
    ensures
        ({
            let i = first_match(e.aers, Some(conn_id));
            of_conn(e.aers, conn_id) == seq![e.aers[i]] + of_conn(
                e.fired(sqs, aggr_thr, Some(conn_id), word).aers,
                conn_id,
            )
        }),
{
    law_first_match(e.aers, Some(conn_id));
    let s = e.aers;
    let i = first_match(s, Some(conn_id));
    let p = |a: Aer| a.conn_id == conn_id;
    let (a, b) = (s.take(i), s.skip(i + 1));
    assert(s.remove(i) =~= a + b);
    assert(s =~= a + seq![s[i]] + b);
    Seq::filter_distributes_over_add(a, b, p);
    Seq::filter_distributes_over_add(a + seq![s[i]], b, p);
    Seq::filter_distributes_over_add(a, seq![s[i]], p);
    lemma_filter_one(s[i], p);
    assert forall|j: int| 0 <= j < a.len() implies !p(#[trigger] a[j]) by {
        assert(!aer_matches(s[j], Some(conn_id)));
    }
    lemma_filter_none(a, p);
    assert(seq![s[i]] + b.filter(p) =~= Seq::<Aer>::empty() + seq![s[i]] + b.filter(p));
    assert(a.filter(p) + b.filter(p) =~= b.filter(p));
}

proof fn lemma_filter_none(s: Seq<Aer>, p: spec_fn(Aer) -> bool)
    requires
        forall|j: int| 0 <= j < s.len() ==> !p(#[trigger] s[j]),
    ensures
        s.filter(p) == Seq::<Aer>::empty(),
    decreases s.len(),
{
    reveal(Seq::filter);
    if s.len() > 0 {
        let t = s.drop_last();
        assert forall|j: int| 0 <= j < t.len() implies !p(#[trigger] t[j]) by {
            assert(t[j] == s[j]);
        }
        lemma_filter_none(t, p);
        assert(!p(s[s.len() - 1]));
    }
}

/// Once the requests of a connection were dropped none of them is left, and those of any
/// other connection are all there, in their order.
pub proof fn law_cleanup_is_complete_and_exact(s: Seq<Aer>, conn_id: u32, other: u32)
    requires
        other != conn_id,
    ensures
        of_conn(other_conns(s, conn_id), conn_id).len() == 0,
        of_conn(other_conns(s, conn_id), other) == of_conn(s, other),
        other_conns(s, conn_id).len() + of_conn(s, conn_id).len() == s.len(),
    decreases s.len(),
{
    reveal(Seq::filter);
    if s.len() > 0 {
        let t = s.drop_last();
        law_cleanup_is_complete_and_exact(t, conn_id, other);
        let k = other_conns(t, conn_id);
        assert(k.push(s.last()).drop_last() =~= k);
    }
}

/// The log holds at most `n` entries, always the latest ones: making an entry in a log
/// that was cut to `n` is the same as making it in a log that never was.
pub proof fn law_log_keeps_the_latest<T>(all: Seq<T>, e: T, n: nat)
    requires
        n > 0,
    ensures
        last_of(last_of(all, n).push(e), n) == last_of(all.push(e), n),
        last_of(all, n).len() <= n,
        last_of(all.push(e), n).last() == e,
{
    assert(last_of(last_of(all, n).push(e), n) =~= last_of(all.push(e), n));
}

/// A reservation log that held no more than 32 entries holds the latest 32 again.
pub proof fn law_reservation_log_keeps_the_latest(
    log: Seq<ReservationNotification>,
    e: ReservationNotification,
)
    requires
        log.len() <= RESERVATION_LOG_ENTRIES,
    ensures
        (if log.len() >= RESERVATION_LOG_ENTRIES {
            log.drop_first().push(e)
        } else {
            log.push(e)
        }) == last_of(log.push(e), RESERVATION_LOG_ENTRIES as nat),
{
    assert((if log.len() >= RESERVATION_LOG_ENTRIES {
        log.drop_first().push(e)
    } else {
        log.push(e)
    }) =~= last_of(log.push(e), RESERVATION_LOG_ENTRIES as nat));
}

/// Type, information and log page can be read back from the word of an event.
pub proof fn law_event_word_fields(aen_type: u8, aen_info: u8, log_id: u8)
    requires
        aen_type < 8,
    ensures
        event_word(aen_type, aen_info, log_id) & 0x7 == aen_type,
        (event_word(aen_type, aen_info, log_id) >> 8) & 0xff == aen_info,
        (event_word(aen_type, aen_info, log_id) >> 16) & 0xff == log_id,
{
    assert(aen_type < 8 ==> ({
        let w = ((aen_type as u32) & 0x7) | ((aen_info as u32) << 8) | ((log_id as u32) << 16);
        w & 0x7 == aen_type && (w >> 8) & 0xff == aen_info && (w >> 16) & 0xff == log_id
    })) by (bit_vector);
}

} // verus!
