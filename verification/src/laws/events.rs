//! Asynchronous events and logs.
use vstd::prelude::*;

use crate::cmd;
use crate::controller::ctx::{DeviceCtx, Trace};
use crate::controller::events;
use crate::controller::events::Events;
use crate::controller::{Aer, ErrorLogEntry, NvmeController, ReservationNotification};
use crate::laws;
use crate::laws::Answer;
use crate::regs::{CompletionQueue, SubmissionQueue};

verus! {

/// What an event reads and changes: the requests that wait for one, the completion queues,
/// and the link.
#[verifier::ext_equal]
pub struct Desk {
    pub aers: Seq<Aer>,
    pub cqs: Map<u16, CompletionQueue>,
    pub t: Trace,
}

/// The desk of `c` on link `t`.
pub open spec fn desk(c: NvmeController, t: Trace) -> Desk {
    Desk { aers: c.aen_pending@, cqs: c.cqs@, t }
}

/// `a` may be told of an event for connection `conn`, or for anybody where it names none.
pub open spec fn may_hear(a: Aer, conn: Option<u32>) -> bool {
    match conn {
        Some(id) => a.conn_id == id,
        None => true,
    }
}

/// Request `i` is the oldest one that may be told.
pub open spec fn is_oldest(aers: Seq<Aer>, conn: Option<u32>, i: int) -> bool {
    &&& 0 <= i < aers.len()
    &&& may_hear(aers[i], conn)
    &&& forall|j: int| 0 <= j < i ==> !may_hear(#[trigger] aers[j], conn)
}

/// Some request may be told.
pub open spec fn anyone_listens(aers: Seq<Aer>, conn: Option<u32>) -> bool {
    exists|i: int| 0 <= i < aers.len() && may_hear(#[trigger] aers[i], conn)
}

/// The answer to request `a` that tells of an event: its kind in the low byte, then the
/// information, then the log page.
pub open spec fn event_answer(
    d: Desk,
    sqs: Map<u16, SubmissionQueue>,
    a: Aer,
    kind: int,
    info: int,
    page: int,
) -> Answer {
    Answer {
        result: kind + 0x100 * info + 0x1_0000 * page,
        sq_head: if sqs.contains_key(a.sq_id) {
            sqs[a.sq_id].head as u16 as int
        } else {
            0
        },
        sq_id: a.sq_id as int,
        cid: a.cid as int,
        phase: laws::tag_of(d.cqs, a.cq_id),
        status: 0,
    }
}

/// An event happened: the oldest request that may be told of it is answered with it, and
/// waits no more; every other request waits on, in its place. Where none may be told nothing
/// happens.
pub open spec fn event_told(
    before: Desk,
    after: Desk,
    sqs: Map<u16, SubmissionQueue>,
    aggr_thr: u8,
    conn: Option<u32>,
    kind: int,
    info: int,
    page: int,
) -> bool {
    if anyone_listens(before.aers, conn) {
        exists|i: int| #[trigger]
            is_oldest(before.aers, conn, i) && after.aers == before.aers.remove(i)
                && laws::answered(
                before.cqs,
                before.t,
                after.cqs,
                after.t,
                aggr_thr,
                before.aers[i].cq_id,
                event_answer(before, sqs, before.aers[i], kind, info, page),
            )
    } else {
        after == before
    }
}

pub(crate) proof fn lemma_event_told(
    e: Events,
    sqs: Map<u16, SubmissionQueue>,
    aggr_thr: u8,
    conn: Option<u32>,
    kind: u8,
    info: u8,
    page: u8,
)
    requires
        laws::all_in_order(e.link.cqs),
        kind < 8,
    ensures
        ({
            let r = e.fired(sqs, aggr_thr, conn, events::event_word(kind, info, page));
            &&& event_told(
                Desk { aers: e.aers, cqs: e.link.cqs, t: e.link.trace },
                Desk { aers: r.aers, cqs: r.link.cqs, t: r.link.trace },
                sqs,
                aggr_thr,
                conn,
                kind as int,
                info as int,
                page as int,
            )
            &&& laws::all_in_order(r.link.cqs)
            &&& e.can_fire(conn) <==> anyone_listens(e.aers, conn)
        }),
{
    assert(kind < 8 ==> ((kind as u32) & 0x7) | ((info as u32) << 8) | ((page as u32) << 16) == kind
        + 0x100 * info + 0x1_0000 * page) by (bit_vector);
    events::law_first_match(e.aers, conn);
    let i = events::first_match(e.aers, conn);
    assert forall|a: Aer| events::aer_matches(a, conn) == #[trigger] may_hear(a, conn) by {}
    if e.can_fire(conn) {
        let a = e.aers[i];
        let head = events::live_head(sqs, a.sq_id);
        let plain = cmd::cqe_of(a.cid, a.sq_id, head, e.link.phase(a.cq_id), 0);
        let word = events::event_word(kind, info, page);
        let c = cmd::Cqe { cdw0: word, ..plain };
        laws::lemma_answer_of(a.cid, a.sq_id, head, e.link.phase(a.cq_id), 0);
        laws::lemma_posted(e.link, aggr_thr, a.cq_id, c);
        assert(may_hear(e.aers[i], conn));
        assert forall|j: int| 0 <= j < i implies !may_hear(#[trigger] e.aers[j], conn) by {
            assert(!events::aer_matches(e.aers[j], conn));
        }
        assert(is_oldest(e.aers, conn, i));
        assert(laws::answer_of(c) =~= event_answer(
            Desk { aers: e.aers, cqs: e.link.cqs, t: e.link.trace },
            sqs,
            a,
            kind as int,
            info as int,
            page as int,
        ));
    } else if anyone_listens(e.aers, conn) {
        let j = choose|j: int| 0 <= j < e.aers.len() && may_hear(#[trigger] e.aers[j], conn);
        assert(!events::aer_matches(e.aers[j], conn));
    }
}

/// An event is told to the oldest request that may be told, and the result says whether
/// there was one.
pub proof fn law_event_goes_to_the_oldest_request(
    c: &mut NvmeController,
    ctx: &mut DeviceCtx,
    kind: u8,
    info: u8,
    page: u8,
    conn: Option<u32>,
    r: bool,
)
    requires
        conn is None ==> call_ensures(NvmeController::fire_aen, (c, ctx, kind, info, page), r)
            || call_ensures(NvmeController::nvme_fire_aen, (c, ctx, kind, info, page), r),
        conn is Some ==> call_ensures(
            NvmeController::fire_aen_for_conn,
            (c, ctx, kind, info, page, conn->0),
            r,
        ) || call_ensures(
            NvmeController::nvme_fire_aen_for_conn,
            (c, ctx, kind, info, page, conn->0),
            r,
        ),
        kind < 8,
        laws::all_in_order(old(c).cqs@),
    ensures
        r <==> anyone_listens(old(c).aen_pending@, conn),
        event_told(
            desk(*old(c), old(ctx)@),
            desk(*final(c), final(ctx)@),
            old(c).sqs@,
            old(c).irq_aggr_threshold,
            conn,
            kind as int,
            info as int,
            page as int,
        ),
        *final(c) == (NvmeController {
            aen_pending: final(c).aen_pending,
            cqs: final(c).cqs,
            ..*old(c)
        }),
{
    lemma_event_told(
        old(c).events(old(ctx)@),
        old(c).sqs@,
        old(c).irq_aggr_threshold,
        conn,
        kind,
        info,
        page,
    );
    lemma_desk(*final(c), final(ctx)@);
}

pub(crate) proof fn lemma_desk(c: NvmeController, t: Trace)
    ensures
        c.events(t).aers == desk(c, t).aers,
        c.events(t).link.cqs == desk(c, t).cqs,
        c.events(t).link.trace == desk(c, t).t,
{
}

/// The access state changes to any other of the four states, which is counted and told to
/// the host: notice 3, log page 12. Nothing else happens, and nothing for any other value.
pub proof fn law_access_state_changes(
    c: &mut NvmeController,
    ctx: &mut DeviceCtx,
    new_state: u8,
    r: bool,
)
    requires
        call_ensures(NvmeController::set_ana_state, (c, ctx, new_state), r),
        laws::all_in_order(old(c).cqs@),
    ensures
        r <==> (new_state == 1 || new_state == 2 || new_state == 3 || new_state == 4) && new_state
            != old(c).ana_state,
        r ==> {
            &&& final(c).ana_state == new_state
            &&& final(c).ana_change_count == laws::token_after(old(c).ana_change_count)
            &&& event_told(
                desk(*old(c), old(ctx)@),
                desk(*final(c), final(ctx)@),
                old(c).sqs@,
                old(c).irq_aggr_threshold,
                None,
                2,
                3,
                12,
            )
            &&& *final(c) == (NvmeController {
                ana_state: final(c).ana_state,
                ana_change_count: final(c).ana_change_count,
                aen_pending: final(c).aen_pending,
                cqs: final(c).cqs,
                ..*old(c)
            })
        },
        !r ==> *final(c) == *old(c) && final(ctx)@ == old(ctx)@,
{
    lemma_event_told(
        old(c).events(old(ctx)@),
        old(c).sqs@,
        old(c).irq_aggr_threshold,
        None,
        2,
        3,
        12,
    );
    lemma_desk(*final(c), final(ctx)@);
}

/// A request for events waits behind all others, for the connection whose command is being
/// dispatched.
pub proof fn law_request_waits_its_turn(c: &mut NvmeController, cid: u16, sq_id: u16, cq_id: u16)
    requires
        call_ensures(NvmeController::queue_aer, (c, cid, sq_id, cq_id), ()),
    ensures
        ({
            let (b, a) = (old(c).aen_pending@, final(c).aen_pending@);
            &&& a.len() == b.len() + 1
            &&& forall|i: int| 0 <= i < b.len() ==> a[i] == #[trigger] b[i]
            &&& a.last().cid == cid
            &&& a.last().sq_id == sq_id
            &&& a.last().cq_id == cq_id
            &&& a.last().conn_id == old(c).current_dispatch_conn_id
        }),
        *final(c) == (NvmeController { aen_pending: final(c).aen_pending, ..*old(c) }),
{
}

/// How many of `aers` are of connection `conn`.
pub open spec fn how_many(aers: Seq<Aer>, conn: u32) -> int
    decreases aers.len(),
{
    if aers.len() == 0 {
        0
    } else {
        how_many(aers.drop_last(), conn) + (if aers.last().conn_id == conn {
            1int
        } else {
            0int
        })
    }
}

proof fn lemma_how_many(aers: Seq<Aer>, conn: u32)
    ensures
        how_many(aers, conn) == events::of_conn(aers, conn).len(),
    decreases aers.len(),
{
    reveal(Seq::filter);
    if aers.len() > 0 {
        lemma_how_many(aers.drop_last(), conn);
    }
}

/// The counts are the numbers of requests that wait.
pub proof fn law_requests_are_counted(
    c: &NvmeController,
    conn: u32,
    all: usize,
    own: usize,
    any: bool,
)
    requires
        call_ensures(NvmeController::nvme_pending_aer_count, (c,), all),
        call_ensures(NvmeController::nvme_pending_aer_count_for_conn, (c, conn), own),
        call_ensures(NvmeController::nvme_has_pending_aen_event, (c,), any),
    ensures
        all == c.aen_pending@.len(),
        own == how_many(c.aen_pending@, conn),
        any <==> all != 0,
{
    lemma_how_many(c.aen_pending@, conn);
}

proof fn lemma_others_left(aers: Seq<Aer>, conn: u32, other: u32)
    ensures
        how_many(events::other_conns(aers, conn), conn) == 0,
        other != conn ==> how_many(events::other_conns(aers, conn), other) == how_many(aers, other),
        events::other_conns(aers, conn).len() + how_many(aers, conn) == aers.len(),
        forall|i: int|
            #![trigger events::other_conns(aers, conn)[i]]
            0 <= i < events::other_conns(aers, conn).len() ==> events::other_conns(
                aers,
                conn,
            )[i].conn_id != conn,
    decreases aers.len(),
{
    reveal(Seq::filter);
    if aers.len() > 0 {
        let init = aers.drop_last();
        lemma_others_left(init, conn, other);
        let k = events::other_conns(init, conn);
        let r = events::other_conns(aers, conn);
        if aers.last().conn_id != conn {
            assert(r == k.push(aers.last()));
            assert(r.drop_last() =~= k);
        } else {
            assert(r == k);
        }
    }
}

/// When a connection goes its requests go, as many as are reported; those of any other
/// connection stay, as many as there were.
pub proof fn law_connection_leaves_nothing(c: &mut NvmeController, conn: u32, other: u32, r: usize)
    requires
        call_ensures(NvmeController::nvme_cleanup_conn_aers, (c, conn), r),
        other != conn,
    ensures
        r == how_many(old(c).aen_pending@, conn),
        how_many(final(c).aen_pending@, conn) == 0,
        how_many(final(c).aen_pending@, other) == how_many(old(c).aen_pending@, other),
        final(c).aen_pending@.len() == old(c).aen_pending@.len() - r,
        events::of_conn(final(c).aen_pending@, other) == events::of_conn(
            old(c).aen_pending@,
            other,
        ),
        *final(c) == (NvmeController { aen_pending: final(c).aen_pending, ..*old(c) }),
{
    lemma_how_many(old(c).aen_pending@, conn);
    lemma_others_left(old(c).aen_pending@, conn, other);
    events::law_cleanup_is_complete_and_exact(old(c).aen_pending@, conn, other);
}

/// `after` is `before` with `e` behind it, less what is more than `most` at the front.
pub open spec fn entered<T>(before: Seq<T>, after: Seq<T>, e: T, most: int) -> bool {
    let all = before.push(e);
    &&& after.len() == (if all.len() > most {
        most
    } else {
        all.len() as int
    })
    &&& forall|i: int|
        0 <= i < after.len() ==> #[trigger] after[i] == all[all.len() - after.len() + i]
}

/// An entry of the error log carries the number of errors so far and what was reported; the
/// log keeps the last 64.
pub proof fn law_error_log_entry(
    c: &mut NvmeController,
    sq_id: u16,
    cid: u16,
    status_field: u16,
    lba: u64,
    nsid: u32,
)
    requires
        call_ensures(
            NvmeController::push_error_log,
            (c, sq_id, cid, status_field, lba, nsid),
            (),
        ),
    ensures
        entered(
            old(c).error_log@,
            final(c).error_log@,
            ErrorLogEntry {
                error_count: old(c).stat_num_err_log_entries,
                sq_id,
                cid,
                status_field,
                param_loc: 0,
                lba,
                nsid,
            },
            64,
        ),
        *final(c) == (NvmeController { error_log: final(c).error_log, ..*old(c) }),
{
}

/// A reservation notification carries the next number; the log keeps the last 32.
pub proof fn law_reservation_log_entry(c: &mut NvmeController, kind: u8, nsid: u32)
    requires
        call_ensures(NvmeController::push_reservation_notification, (c, kind, nsid), ()),
        old(c).reservation_notification_log@.len() <= 32,
    ensures
        final(c).reservation_notification_count == laws::token_after(
            old(c).reservation_notification_count,
        ),
        entered(
            old(c).reservation_notification_log@,
            final(c).reservation_notification_log@,
            ReservationNotification {
                log_page_count: final(c).reservation_notification_count,
                log_page_type: kind,
                nsid,
            },
            32,
        ),
        *final(c) == (NvmeController {
            reservation_notification_count: final(c).reservation_notification_count,
            reservation_notification_log: final(c).reservation_notification_log,
            ..*old(c)
        }),
{
}

} // verus!
