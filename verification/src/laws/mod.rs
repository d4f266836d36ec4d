//! What callers can rely on, call by call.
//!
//! Each law speaks of a call: of what was passed, of what came back, and of what the link
//! was asked for. Completions are read as a host reads them, byte by byte, and numbers are
//! counted rather than shifted.
use vstd::prelude::*;

use crate::cmd;
use crate::cmd::{Cqe, Sqe};
use crate::controller::ctx::{Event, Trace};
use crate::controller::post::Link;
use crate::regs::CompletionQueue;

pub mod abort;
pub mod bytes;
pub mod calls;
pub mod compare;
pub mod dispatch;
pub mod doorbells;
pub mod events;
pub mod queues;
pub mod setup;
pub mod startup;
pub mod store;
pub mod tables;
pub mod time;
pub mod transfer;

verus! {

/// The number in two bytes from `at` on, low byte first.
pub open spec fn two_bytes(b: Seq<u8>, at: int) -> int {
    b[at] + 0x100 * b[at + 1]
}

/// The number in four bytes from `at` on, low byte first.
pub open spec fn four_bytes(b: Seq<u8>, at: int) -> int {
    two_bytes(b, at) + 0x1_0000 * two_bytes(b, at + 2)
}

/// A completion as a host takes it apart.
#[verifier::ext_equal]
pub struct Answer {
    pub result: int,
    pub sq_head: int,
    pub sq_id: int,
    pub cid: int,
    pub phase: int,
    pub status: int,
}

/// The completion in 16 bytes.
pub open spec fn answer_in(b: Seq<u8>) -> Answer {
    Answer {
        result: four_bytes(b, 0),
        sq_head: two_bytes(b, 8),
        sq_id: two_bytes(b, 10),
        cid: two_bytes(b, 12),
        phase: two_bytes(b, 14) % 2,
        status: two_bytes(b, 14) / 2,
    }
}

/// The completion that `c` stands for.
pub open spec fn answer_of(c: Cqe) -> Answer {
    Answer {
        result: c.cdw0 as int,
        sq_head: c.dw2 as int % 0x1_0000,
        sq_id: c.dw2 as int / 0x1_0000,
        cid: c.dw3 as int % 0x1_0000,
        phase: c.dw3 as int / 0x1_0000 % 2,
        status: c.dw3 as int / 0x2_0000,
    }
}

/// The phase tag of queue `cq_id`; 1 where there is no such queue.
pub open spec fn tag_of(cqs: Map<u16, CompletionQueue>, cq_id: u16) -> int {
    if cqs.contains_key(cq_id) {
        cqs[cq_id].phase as int % 2
    } else {
        1
    }
}

/// An answer without a result, with the tag that queue `cq_id` has now.
pub open spec fn plain_answer(
    cqs: Map<u16, CompletionQueue>,
    cq_id: u16,
    sq_id: u16,
    sq_head: u16,
    cid: int,
    status: int,
) -> Answer {
    Answer {
        result: 0,
        sq_head: sq_head as int,
        sq_id: sq_id as int,
        cid,
        phase: tag_of(cqs, cq_id),
        status,
    }
}

/// The tail is a slot of the queue, every slot has an address, and the tag is a bit.
pub open spec fn in_order(q: CompletionQueue) -> bool {
    q.tail < q.size && q.base_gpa + (q.size - 1) * 16 <= u64::MAX && q.phase <= 1
}

/// Every completion queue is in order.
pub open spec fn all_in_order(cqs: Map<u16, CompletionQueue>) -> bool {
    forall|q: u16| #[trigger] cqs.contains_key(q) ==> in_order(cqs[q])
}

/// The token after `token`.
pub open spec fn token_after(token: u64) -> int {
    (token + 1) % 0x1_0000_0000_0000_0000
}

/// The request number `n` of `later`, counted from the last one of `earlier`.
pub open spec fn request(earlier: Trace, later: Trace, n: int) -> Event {
    later.events[earlier.events.len() + n]
}

/// `later` holds the requests of `earlier` and `n` more.
pub open spec fn more_requests(earlier: Trace, later: Trace, n: int) -> bool {
    &&& later.events.len() == earlier.events.len() + n
    &&& forall|i: int| 0 <= i < earlier.events.len() ==> later.events[i] == #[trigger] earlier.events[i]
    &&& later.now == earlier.now
}

/// The host gets an interrupt with the next completion in queue `q`, number `cq_id`: at
/// once from the admin queue, and from another one when `aggr_thr` others wait.
pub open spec fn wakes(q: CompletionQueue, cq_id: u16, aggr_thr: u8) -> bool {
    q.interrupt_enabled && (cq_id == 0 || q.pending_completions >= aggr_thr)
}

/// Queue `cq_id` got one completion, which a host reads as `a`: it is in the slot at the
/// tail, the tail is one slot further on, and the tag is the other one where it came back
/// to the first slot. The interrupt of the queue comes with it, or the completion waits.
/// No other queue has changed.
pub open spec fn one_posted(
    cqs: Map<u16, CompletionQueue>,
    t: Trace,
    cqs_after: Map<u16, CompletionQueue>,
    t_after: Trace,
    aggr_thr: u8,
    cq_id: u16,
    a: Answer,
) -> bool {
    let q = cqs[cq_id];
    let n = cqs_after[cq_id];
    let w = request(t, t_after, 0);
    &&& more_requests(
        t,
        t_after,
        if wakes(q, cq_id, aggr_thr) {
            2
        } else {
            1
        },
    )
    &&& t_after.next_token == token_after(t.next_token)
    &&& w is DmaWrite
    &&& w->DmaWrite_token == t.next_token
    &&& w->DmaWrite_gpa == q.base_gpa + 16 * q.tail
    &&& w->DmaWrite_data.len() == 16
    &&& answer_in(w->DmaWrite_data) == a
    &&& wakes(q, cq_id, aggr_thr) ==> request(t, t_after, 1) == (Event::FireInterrupt {
        msix_index: q.interrupt_vector as u32,
    })
    &&& cqs_after == cqs.insert(cq_id, n)
    &&& n == (CompletionQueue {
        tail: n.tail,
        phase: n.phase,
        pending_completions: n.pending_completions,
        last_fire: n.last_fire,
        ..q
    })
    &&& n.tail == (q.tail + 1) % (q.size as int)
    &&& n.phase == (if n.tail == 0 {
        1 - q.phase
    } else {
        q.phase as int
    })
    &&& wakes(q, cq_id, aggr_thr) ==> n.pending_completions == 0 && n.last_fire == Some(t.now)
    &&& !wakes(q, cq_id, aggr_thr) ==> {
        &&& n.pending_completions == (if q.pending_completions < u32::MAX {
            q.pending_completions + 1
        } else {
            u32::MAX as int
        })
        &&& n.last_fire == (if q.interrupt_enabled && q.last_fire is None {
            Some(t.now)
        } else {
            q.last_fire
        })
    }
}

/// One completion was posted to queue `cq_id`, or, where there is no such queue, none.
pub open spec fn answered(
    cqs: Map<u16, CompletionQueue>,
    t: Trace,
    cqs_after: Map<u16, CompletionQueue>,
    t_after: Trace,
    aggr_thr: u8,
    cq_id: u16,
    a: Answer,
) -> bool {
    if cqs.contains_key(cq_id) {
        one_posted(cqs, t, cqs_after, t_after, aggr_thr, cq_id, a)
    } else {
        cqs_after == cqs && t_after == t
    }
}

pub(crate) proof fn lemma_answer_in_bytes(c: Cqe)
    ensures
        c.spec_bytes().len() == 16,
        answer_in(c.spec_bytes()) == answer_of(c),
        four_bytes(c.spec_bytes(), 4) == c.dw1,
{
    lemma_bytes_of(c.cdw0);
    lemma_bytes_of(c.dw1);
    lemma_bytes_of(c.dw2);
    lemma_bytes_of(c.dw3);
    let b = c.spec_bytes();
    assert(four_bytes(b, 0) == four_bytes(crate::bytes::le32_bytes(c.cdw0), 0));
    assert(four_bytes(b, 4) == four_bytes(crate::bytes::le32_bytes(c.dw1), 0));
    assert(four_bytes(b, 8) == four_bytes(crate::bytes::le32_bytes(c.dw2), 0));
    assert(four_bytes(b, 12) == four_bytes(crate::bytes::le32_bytes(c.dw3), 0));
}

pub(crate) proof fn lemma_bytes_of(x: u32)
    ensures
        four_bytes(crate::bytes::le32_bytes(x), 0) == x,
        crate::bytes::le32_bytes(x).len() == 4,
{
    assert(x == (x & 0xff) + 0x100 * ((x >> 8) & 0xff) + 0x1_0000 * ((x >> 16) & 0xff) + 0x100_0000
        * (x >> 24) && (x & 0xff) < 0x100 && ((x >> 8) & 0xff) < 0x100 && ((x >> 16) & 0xff) < 0x100
        && (x >> 24) < 0x100) by (bit_vector);
}

pub(crate) proof fn lemma_answer_of(cid: u16, sq_id: u16, sq_head: u16, phase: u8, status: u16)
    requires
        status < 0x8000,
    ensures
        answer_of(cmd::cqe_of(cid, sq_id, sq_head, phase, status)) == (Answer {
            result: 0,
            sq_head: sq_head as int,
            sq_id: sq_id as int,
            cid: cid as int,
            phase: phase as int % 2,
            status: status as int,
        }),
        cmd::cqe_of(cid, sq_id, sq_head, phase, status).dw1 == 0,
{
    assert(status < 0x8000 ==> (sq_head as u32) | ((sq_id as u32) << 16) == sq_head + 0x1_0000
        * sq_id && (cid as u32) | (((phase & 1) as u32) << 16) | (((status << 1) as u32) << 16)
        == cid + 0x1_0000 * (phase % 2) + 0x2_0000 * status) by (bit_vector);
}

pub(crate) proof fn lemma_posted(l: Link, aggr_thr: u8, cq_id: u16, c: Cqe)
    requires
        l.cqs.contains_key(cq_id) ==> in_order(l.cqs[cq_id]),
    ensures
        answered(
            l.cqs,
            l.trace,
            l.posted(aggr_thr, cq_id, c).cqs,
            l.posted(aggr_thr, cq_id, c).trace,
            aggr_thr,
            cq_id,
            answer_of(c),
        ),
        l.posted(aggr_thr, cq_id, c).cqs.contains_key(cq_id) ==> in_order(
            l.posted(aggr_thr, cq_id, c).cqs[cq_id],
        ),
        all_in_order(l.cqs) ==> all_in_order(l.posted(aggr_thr, cq_id, c).cqs),
{
    if l.cqs.contains_key(cq_id) {
        let q = l.cqs[cq_id];
        let p = q.phase;
        let r = l.posted(aggr_thr, cq_id, c);
        assert(p <= 1 ==> p ^ 1 == 1 - p) by (bit_vector);
        lemma_answer_in_bytes(c);
        crate::controller::post::lemma_next_slot(q.tail as int, q.size as int);
        assert(q.tail * 16 <= (q.size - 1) * 16);
        assert(r.cqs =~= l.cqs.insert(cq_id, r.cqs[cq_id]));
    }
}

/// Posts a plain answer.
pub(crate) proof fn lemma_plain_posted(
    l: Link,
    aggr_thr: u8,
    cq_id: u16,
    cid: u16,
    sq_id: u16,
    sq_head: u16,
    status: u16,
)
    requires
        l.cqs.contains_key(cq_id) ==> in_order(l.cqs[cq_id]),
        status < 0x8000,
    ensures
        ({
            let c = cmd::cqe_of(cid, sq_id, sq_head, l.phase(cq_id), status);
            let r = l.posted(aggr_thr, cq_id, c);
            &&& answered(
                l.cqs,
                l.trace,
                r.cqs,
                r.trace,
                aggr_thr,
                cq_id,
                plain_answer(l.cqs, cq_id, sq_id, sq_head, cid as int, status as int),
            )
            &&& r.cqs.contains_key(cq_id) ==> in_order(r.cqs[cq_id])
            &&& all_in_order(l.cqs) ==> all_in_order(r.cqs)
        }),
{
    lemma_answer_of(cid, sq_id, sq_head, l.phase(cq_id), status);
    lemma_posted(l, aggr_thr, cq_id, cmd::cqe_of(cid, sq_id, sq_head, l.phase(cq_id), status));
}

/// The fields of a command, counted out of its words.
pub open spec fn opcode_of(s: Sqe) -> int {
    s.cdw0 as int % 0x100
}

pub open spec fn fuse_of(s: Sqe) -> int {
    s.cdw0 as int / 0x100 % 4
}

pub open spec fn cid_of(s: Sqe) -> int {
    s.cdw0 as int / 0x1_0000
}

pub open spec fn first_block_of(s: Sqe) -> int {
    s.cdw10 + 0x1_0000_0000 * s.cdw11
}

pub open spec fn blocks_of(s: Sqe) -> int {
    s.cdw12 as int % 0x1_0000 + 1
}

pub(crate) proof fn lemma_fields(s: Sqe)
    ensures
        s.spec_opcode() == opcode_of(s),
        s.spec_fuse() == fuse_of(s),
        s.spec_cid() == cid_of(s),
        s.spec_slba() == first_block_of(s),
        s.spec_nlb() == blocks_of(s),
        0 <= cid_of(s) <= u16::MAX,
        1 <= blocks_of(s) <= 0x1_0000,
{
    let (a, b, c, d) = (s.cdw0, s.cdw10, s.cdw11, s.cdw12);
    assert(a & 0xff == a % 0x100 && (a >> 8) & 3 == a / 0x100 % 4 && a >> 16 == a / 0x1_0000 && (
    b as u64) | ((c as u64) << 32) == b + 0x1_0000_0000 * c && d & 0xffff == d % 0x1_0000)
        by (bit_vector);
}

/// What a command says of itself is where the format puts it.
pub proof fn law_command_fields(s: &Sqe, opcode: u8, fuse: u8, cid: u16, slba: u64, nlb: u32)
    requires
        call_ensures(Sqe::opcode, (s,), opcode),
        call_ensures(Sqe::fuse, (s,), fuse),
        call_ensures(Sqe::cid, (s,), cid),
        call_ensures(Sqe::slba, (s,), slba),
        call_ensures(Sqe::nlb, (s,), nlb),
    ensures
        opcode == opcode_of(*s),
        fuse == fuse_of(*s),
        cid == cid_of(*s),
        slba == first_block_of(*s),
        nlb == blocks_of(*s),
{
    lemma_fields(*s);
}

/// A host that takes a completion apart reads what went into it, and the second word is
/// free.
pub proof fn law_completion_is_read_back(
    cid: u16,
    sq_id: u16,
    sq_head: u16,
    phase: u8,
    status: u16,
    c: Cqe,
    ok: Cqe,
    b: Vec<u8>,
)
    requires
        status < 0x8000,
        call_ensures(Cqe::error, (cid, sq_id, sq_head, phase, status), c),
        call_ensures(Cqe::success, (cid, sq_id, sq_head, phase), ok),
        call_ensures(Cqe::as_bytes, (&c,), b),
    ensures
        b@.len() == 16,
        answer_in(b@) == (Answer {
            result: 0,
            sq_head: sq_head as int,
            sq_id: sq_id as int,
            cid: cid as int,
            phase: phase as int % 2,
            status: status as int,
        }),
        four_bytes(b@, 4) == 0,
        answer_of(ok) == (Answer { status: 0, ..answer_in(b@) }),
        ok.dw1 == 0,
{
    lemma_answer_of(cid, sq_id, sq_head, phase, status);
    lemma_answer_of(cid, sq_id, sq_head, phase, 0);
    lemma_answer_in_bytes(c);
}

} // verus!
