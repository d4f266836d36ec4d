//! What holds of shadow doorbells as a whole.
use vstd::prelude::*;

use crate::controller::ctx;
use crate::controller::shadow;
use crate::controller::shadow::{Shadow, MAX_SHADOW_POLL_ITERS};
use crate::controller::ShadowPollCtx;

verus! {

impl Shadow {
    /// Each doorbell has at most one read of its shadow in flight, and only while its
    /// chain is; rings are remembered only for chains in flight; and no chain is deeper
    /// than allowed.
    pub open spec fn chains_ok(self) -> bool {
        &&& forall|t: u64| #[trigger]
            self.polls.contains_key(t) ==> self.inflight.contains(
                shadow::doorbell_key(self.polls[t].qid, self.polls[t].is_cq),
            ) && self.polls[t].iters < MAX_SHADOW_POLL_ITERS
        &&& forall|t: u64, u: u64|
            #![trigger self.polls.contains_key(t), self.polls.contains_key(u)]
            self.polls.contains_key(t) && self.polls.contains_key(u) && self.polls[t].qid
                == self.polls[u].qid && self.polls[t].is_cq == self.polls[u].is_cq ==> t == u
        &&& forall|k: u32| #[trigger] self.rung.contains(k) ==> self.inflight.contains(k)
    }

    /// No transfer in flight has the token that the next one gets.
    pub open spec fn next_token_free(self) -> bool {
        !self.polls.contains_key(self.trace.next_token)
    }

    /// No read of this doorbell's shadow is in flight.
    pub open spec fn no_read(self, qid: u16, is_cq: bool) -> bool {
        forall|t: u64| #[trigger]
            self.polls.contains_key(t) ==> !(self.polls[t].qid == qid && self.polls[t].is_cq
                == is_cq)
    }
}

proof fn lemma_read_issued_ok(s: Shadow, qid: u16, is_cq: bool, iters: u32)
    requires
        s.chains_ok(),
        s.next_token_free(),
        s.no_read(qid, is_cq),
        s.inflight.contains(shadow::doorbell_key(qid, is_cq)),
        iters < MAX_SHADOW_POLL_ITERS,
    ensures
        s.read_issued(qid, is_cq, iters).chains_ok(),
{
    let r = s.read_issued(qid, is_cq, iters);
    assert forall|t: u64, u: u64|
        #![trigger r.polls.contains_key(t), r.polls.contains_key(u)]
        r.polls.contains_key(t) && r.polls.contains_key(u) && r.polls[t].qid == r.polls[u].qid
            && r.polls[t].is_cq == r.polls[u].is_cq implies t == u by {
        if t != s.trace.next_token {
            assert(s.polls.contains_key(t));
        }
        if u != s.trace.next_token {
            assert(s.polls.contains_key(u));
        }
    }
    assert forall|t: u64| #[trigger] r.polls.contains_key(t) implies r.inflight.contains(
        shadow::doorbell_key(r.polls[t].qid, r.polls[t].is_cq),
    ) && r.polls[t].iters < MAX_SHADOW_POLL_ITERS by {
        if t != s.trace.next_token {
            assert(s.polls.contains_key(t));
        }
    }
}

proof fn lemma_chain_ended_ok(s: Shadow, qid: u16, is_cq: bool)
    requires
        s.chains_ok(),
        s.no_read(qid, is_cq),
    ensures
        s.chains_ok() ==> s.chain_ended(qid, is_cq).chains_ok(),
        !s.chain_ended(qid, is_cq).inflight.contains(shadow::doorbell_key(qid, is_cq)),
{
    let r = s.chain_ended(qid, is_cq);
    assert forall|t: u64| #[trigger] r.polls.contains_key(t) implies r.inflight.contains(
        shadow::doorbell_key(r.polls[t].qid, r.polls[t].is_cq),
    ) && r.polls[t].iters < MAX_SHADOW_POLL_ITERS by {
        assert(s.polls.contains_key(t));
        if shadow::doorbell_key(r.polls[t].qid, r.polls[t].is_cq) == shadow::doorbell_key(
            qid,
            is_cq,
        ) {
            shadow::law_doorbell_keys_distinct(r.polls[t].qid, r.polls[t].is_cq, qid, is_cq);
        }
    }
}

/// Ringing a doorbell, however often, never starts a second chain for it.
pub proof fn law_ring_keeps_chains(s: Shadow, qid: u16, is_cq: bool)
    requires
        s.chains_ok(),
        s.next_token_free(),
    ensures
        s.rung_at(qid, is_cq).chains_ok(),
        s.inflight.contains(shadow::doorbell_key(qid, is_cq)) ==> s.rung_at(qid, is_cq).trace
            == s.trace,
{
    let key = shadow::doorbell_key(qid, is_cq);
    if s.active() && qid != 0 && !s.inflight.contains(key) {
        let m = Shadow { inflight: s.inflight.insert(key), ..s };
        assert(m.no_read(qid, is_cq)) by {
            assert forall|t: u64| #[trigger] m.polls.contains_key(t) implies !(m.polls[t].qid == qid
                && m.polls[t].is_cq == is_cq) by {
                assert(s.polls.contains_key(t));
            }
        }
        assert(m.chains_ok()) by {
            assert forall|t: u64| #[trigger] m.polls.contains_key(t) implies m.inflight.contains(
                shadow::doorbell_key(m.polls[t].qid, m.polls[t].is_cq),
            ) && m.polls[t].iters < MAX_SHADOW_POLL_ITERS by {
                assert(s.polls.contains_key(t));
            }
        }
        lemma_read_issued_ok(m, qid, is_cq, 0);
    }
}

/// A ring that comes while the chain of the doorbell is in flight is not lost: it is
/// remembered until the chain has looked again.
pub proof fn law_ring_is_remembered(s: Shadow, qid: u16, is_cq: bool)
    requires
        s.active(),
        qid != 0,
    ensures
        ({
            let key = shadow::doorbell_key(qid, is_cq);
            let r = s.rung_at(qid, is_cq);
            &&& r.inflight.contains(key)
            &&& s.inflight.contains(key) ==> r.rung.contains(key)
            &&& !s.inflight.contains(key) ==> r.trace == s.trace.read(
                Shadow::entry(s.shadow_gpa, qid, is_cq),
                4,
            )
        }),
{
}

proof fn lemma_continued_ok(s: Shadow, qid: u16, iters: u32)
    requires
        s.chains_ok(),
        s.next_token_free(),
        s.no_read(qid, false),
        s.inflight.contains(shadow::doorbell_key(qid, false)),
        iters < u32::MAX,
    ensures
        s.chain_continued(qid, iters).chains_ok(),
{
    if iters + 1 >= MAX_SHADOW_POLL_ITERS {
        lemma_chain_ended_ok(s.failed(), qid, false);
    } else {
        lemma_read_issued_ok(s, qid, false, (iters + 1) as u32);
    }
}

/// The tokens of the transfers that a move of the tail and an event index take are free
/// too.
pub open spec fn tokens_free(s: Shadow, n: nat) -> bool
    decreases n,
{
    if n == 0 {
        true
    } else {
        s.next_token_free() && tokens_free(
            Shadow {
                trace: ctx::Trace { next_token: ctx::successor(s.trace.next_token), ..s.trace },
                ..s
            },
            (n - 1) as nat,
        )
    }
}

/// Handling a read of the shadow of a submission queue keeps the chains in order: the
/// chain goes on with one more read, or it ends.
pub proof fn law_sq_read_keeps_chains(s: Shadow, qid: u16, shadow: u32, iters: u32)
    requires
        s.chains_ok(),
        tokens_free(s, 4),
        s.no_read(qid, false),
        s.inflight.contains(shadow::doorbell_key(qid, false)),
        iters < MAX_SHADOW_POLL_ITERS,
    ensures
        s.sq_shadow_read(qid, shadow, iters).chains_ok(),
{
    reveal_with_fuel(tokens_free, 5);
    let key = shadow::doorbell_key(qid, false);
    if !s.sqs.contains_key(qid) {
        lemma_chain_ended_ok(s, qid, false);
    } else if shadow >= s.sqs[qid].size {
        lemma_chain_ended_ok(s.failed(), qid, false);
    } else if shadow != s.sqs[qid].tail {
        let a = Shadow {
            ahead: if s.shadow_ahead(qid, shadow) {
                (s.ahead + 1) as u64
            } else {
                s.ahead
            },
            ..s
        };
        let b = a.sq_taken(qid, shadow);
        let c = b.sq_event_idx_written(qid, shadow);
        assert(c.polls == s.polls && c.inflight == s.inflight && c.rung == s.rung);
        assert(c.next_token_free());
        lemma_continued_ok(c, qid, iters);
    } else {
        let a = if s.event_idx.contains_key(qid) && s.event_idx[qid] == shadow {
            s
        } else {
            s.sq_event_idx_written(qid, shadow)
        };
        assert(a.polls == s.polls && a.inflight == s.inflight && a.rung == s.rung);
        assert(a.next_token_free());
        if s.rung.contains(key) {
            lemma_continued_ok(Shadow { rung: a.rung.remove(key), ..a }, qid, iters);
        } else {
            let r = Shadow { inflight: a.inflight.remove(key), ..a };
            lemma_chain_ended_ok(a, qid, false);
            assert(r =~= a.chain_ended(qid, false)) by {
                assert(a.rung.remove(key) =~= a.rung);
            }
        }
    }
}

/// Handling a read of the shadow of a completion queue keeps the chains in order.
pub proof fn law_cq_read_keeps_chains(s: Shadow, qid: u16, shadow: u32)
    requires
        s.chains_ok(),
        tokens_free(s, 2),
        s.no_read(qid, true),
        s.inflight.contains(shadow::doorbell_key(qid, true)),
    ensures
        s.cq_shadow_read(qid, shadow).chains_ok(),
{
    reveal_with_fuel(tokens_free, 3);
    let key = shadow::doorbell_key(qid, true);
    if !s.cqs.contains_key(qid) || shadow >= s.cqs[qid].size {
        lemma_chain_ended_ok(s, qid, true);
    } else {
        let a = (Shadow {
            cqs: s.cqs.insert(
                qid,
                crate::regs::CompletionQueue { head: shadow, ..s.cqs[qid] },
            ),
            ..s
        }).event_idx_written(qid, true, shadow);
        assert(a.polls == s.polls && a.inflight == s.inflight && a.rung == s.rung);
        if s.rung.contains(key) {
            lemma_read_issued_ok(Shadow { rung: a.rung.remove(key), ..a }, qid, true, 0);
        } else {
            let r = Shadow { inflight: a.inflight.remove(key), ..a };
            lemma_chain_ended_ok(a, qid, true);
            assert(r =~= a.chain_ended(qid, true)) by {
                assert(a.rung.remove(key) =~= a.rung);
            }
        }
    }
}

/// The end of a read of a shadow, however it ended, keeps the chains in order: the read
/// is forgotten, and the chain goes on with one more, or ends.
pub proof fn law_poll_end_keeps_chains(s: Shadow, token: u64, ok: bool, data: Seq<u8>)
    requires
        s.chains_ok(),
        s.polls.contains_key(token),
        tokens_free(Shadow { polls: s.polls.remove(token), ..s }, 4),
    ensures
        (Shadow { polls: s.polls.remove(token), ..s }).poll_ended(
            s.polls[token],
            ok,
            data,
        ).chains_ok(),
{
    let p = s.polls[token];
    let m = Shadow { polls: s.polls.remove(token), ..s };
    assert forall|t: u64| #[trigger] m.polls.contains_key(t) implies s.polls.contains_key(t) && t
        != token by {}
    assert(m.no_read(p.qid, p.is_cq));
    assert(m.chains_ok());
    if !ok || data.len() < 4 {
        lemma_chain_ended_ok(m, p.qid, p.is_cq);
    } else if p.is_cq {
        assert(tokens_free(m, 2)) by {
            reveal_with_fuel(tokens_free, 5);
        }
        law_cq_read_keeps_chains(m, p.qid, crate::bytes::le32_at(data, 0));
    } else {
        law_sq_read_keeps_chains(m, p.qid, crate::bytes::le32_at(data, 0), p.iters);
    }
}

/// A host rings the doorbell when it moves an index from `old` to `new` exactly where
/// that passes the event index, counting round at 65536.
pub open spec fn host_rings(event_idx: u16, new: u16, old: u16) -> bool {
    (new - event_idx - 1) % 0x1_0000 < (new - old) % 0x1_0000
}

/// Where the event index is the index that the host moves on from, any move rings.
pub proof fn law_settled_event_idx_forces_ring(old: u16, new: u16)
    requires
        new != old,
    ensures
        host_rings(old, new, old),
{
    let d = new - old;
    if d < 0 {
        assert((d - 1) % 0x1_0000 == d - 1 + 0x1_0000);
        assert(d % 0x1_0000 == d + 0x1_0000);
    }
}

/// When the chain of a submission queue ends without failure, everything that the shadow
/// told of is taken in, no ring is outstanding, and the host knows that it has to ring
/// for whatever it submits next.
pub proof fn law_settled_queue_is_level(s: Shadow, qid: u16, shadow: u32, iters: u32)
    requires
        s.sqs.contains_key(qid),
        shadow < s.sqs[qid].size,
        s.inflight.contains(shadow::doorbell_key(qid, false)),
        iters + 1 < MAX_SHADOW_POLL_ITERS,
        !s.sq_shadow_read(qid, shadow, iters).inflight.contains(shadow::doorbell_key(qid, false)),
    ensures
        ({
            let r = s.sq_shadow_read(qid, shadow, iters);
            &&& r.sqs[qid].tail == shadow
            &&& r.csts == s.csts
            &&& !r.rung.contains(shadow::doorbell_key(qid, false))
            &&& r.event_idx.contains_key(qid) && r.event_idx[qid] == shadow
        }),
{
}

/// A ring that came during the last read of a chain makes it look once more, unless that
/// were too often.
pub proof fn law_missed_ring_is_recovered(s: Shadow, qid: u16, shadow: u32, iters: u32)
    requires
        s.sqs.contains_key(qid),
        shadow < s.sqs[qid].size,
        shadow == s.sqs[qid].tail,
        s.rung.contains(shadow::doorbell_key(qid, false)),
        s.inflight.contains(shadow::doorbell_key(qid, false)),
        iters + 1 < MAX_SHADOW_POLL_ITERS,
    ensures
        ({
            let r = s.sq_shadow_read(qid, shadow, iters);
            let key = shadow::doorbell_key(qid, false);
            &&& r.inflight.contains(key)
            &&& !r.rung.contains(key)
            &&& r.trace.events.last() == (ctx::Event::DmaRead {
                token: r.trace.events.last()->DmaRead_token,
                gpa: Shadow::entry(s.shadow_gpa, qid, false),
                len: 4,
            })
            &&& r.polls.contains_key(r.trace.events.last()->DmaRead_token)
            &&& r.polls[r.trace.events.last()->DmaRead_token] == (ShadowPollCtx {
                qid,
                is_cq: false,
                iters: (iters + 1) as u32,
            })
        }),
{
}

/// A shadow in range takes the tail to it, whatever was written to the doorbell register.
pub proof fn law_shadow_decides_the_tail(s: Shadow, qid: u16, shadow: u32, iters: u32, mmio: u32)
    requires
        s.sqs.contains_key(qid),
        shadow < s.sqs[qid].size,
        s.operational(),
        s.active(),
        qid != 0,
    ensures
        s.sq_shadow_read(qid, shadow, iters).sqs[qid].tail == shadow,
        s.sq_doorbell(qid, mmio).sqs == s.sqs,
        s.sq_doorbell(qid, mmio).fetches == s.fetches,
{
}

/// A chain that finds something new each time fails the controller at the limit and not
/// before.
pub proof fn law_runaway_chain_fails_at_the_limit(s: Shadow, qid: u16, shadow: u32, iters: u32)
    requires
        s.sqs.contains_key(qid),
        shadow < s.sqs[qid].size,
        shadow != s.sqs[qid].tail,
        iters < MAX_SHADOW_POLL_ITERS,
    ensures
        iters + 1 < MAX_SHADOW_POLL_ITERS ==> s.sq_shadow_read(qid, shadow, iters).csts == s.csts,
        iters + 1 == MAX_SHADOW_POLL_ITERS ==> s.sq_shadow_read(qid, shadow, iters).csts == s.csts
            | crate::regs::csts::CFS && !s.sq_shadow_read(qid, shadow, iters).inflight.contains(
            shadow::doorbell_key(qid, false),
        ),
{
}

/// Queues stay well formed, so that the next shadow can be taken in too.
pub proof fn law_sq_read_keeps_queues(s: Shadow, qid: u16, shadow: u32, iters: u32, other: u16)
    requires
        s.sqs.contains_key(qid) ==> s.sqs[qid].wf(),
        s.sqs.contains_key(other),
        s.sqs[other].wf(),
    ensures
        s.sq_shadow_read(qid, shadow, iters).sqs.contains_key(other),
        s.sq_shadow_read(qid, shadow, iters).sqs[other].wf(),
{
}

/// After shadow doorbells were turned off nothing of them is in flight, and a ring goes
/// to the doorbell registers again.
pub proof fn law_cleared_leaves_nothing(s: Shadow, qid: u16, is_cq: bool)
    ensures
        !s.cleared().active(),
        s.cleared().chains_ok(),
        s.cleared().no_read(qid, is_cq),
        s.cleared().rung_at(qid, is_cq) == s.cleared(),
{
}

} // verus!
