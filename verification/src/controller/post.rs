//! Posting completions and raising interrupts.
use vstd::prelude::*;

use crate::cmd::Cqe;
use crate::controller::ctx::{DeviceCtx, Trace};
use crate::controller::NvmeController;
use crate::regs::{CompletionQueue, CQE_BYTES};

verus! {

/// Whether posting to queue `cq_id` interrupts the host now, where `pending`
/// completions wait for an interrupt: always for the admin queue, and for an I/O
/// queue as soon as more than `aggr_thr` wait. The aggregation time plays no part
/// here; see `tick`.
pub open spec fn fires_now(cq_id: u16, pending: int, aggr_thr: u8) -> bool {
    cq_id == 0 || pending > aggr_thr
}

/// See `fires_now`.
pub fn should_fire_irq(cq_id: u16, pending: u32, aggr_thr: u8, _aggr_time_100us: u8) -> (r: bool)
    ensures
        r == fires_now(cq_id, pending as int, aggr_thr),
{
    if cq_id == 0 {
        return true;
    }
    pending >= (aggr_thr as u32 + 1)
}

impl CompletionQueue {
    /// The queue has a slot at its tail, and every slot has an address.
    pub open spec fn wf(self) -> bool {
        self.tail < self.size && self.base_gpa + (self.size - 1) * 16 <= u64::MAX
    }

    /// Address of the slot at the tail.
    pub open spec fn tail_gpa(self) -> u64 {
        (self.base_gpa + self.tail * 16) as u64
    }

    /// The queue with one completion more: the tail moves on by one slot and starts
    /// over at the end of the queue, where the phase tag flips.
    pub open spec fn advanced(self) -> CompletionQueue {
        CompletionQueue {
            tail: if self.tail + 1 == self.size {
                0
            } else {
                (self.tail + 1) as u32
            },
            phase: if self.tail + 1 == self.size {
                self.phase ^ 1
            } else {
                self.phase
            },
            pending_completions: if self.pending_completions == u32::MAX {
                u32::MAX
            } else {
                (self.pending_completions + 1) as u32
            },
            ..self
        }
    }

    /// Whether posting to this queue, number `cq_id`, raises its interrupt.
    pub open spec fn post_fires(self, cq_id: u16, aggr_thr: u8) -> bool {
        self.interrupt_enabled && fires_now(
            cq_id,
            self.advanced().pending_completions as int,
            aggr_thr,
        )
    }

    /// The queue, number `cq_id`, after a completion was posted to it at time `now`.
    pub open spec fn posted(self, cq_id: u16, aggr_thr: u8, now: u64) -> CompletionQueue {
        let q = self.advanced();
        if self.post_fires(cq_id, aggr_thr) {
            CompletionQueue { pending_completions: 0, last_fire: Some(now), ..q }
        } else if self.interrupt_enabled && self.last_fire is None {
            CompletionQueue { last_fire: Some(now), ..q }
        } else {
            q
        }
    }
}

/// The completion queues and the requests made to the link.
#[verifier::ext_equal]
pub struct Link {
    pub cqs: Map<u16, CompletionQueue>,
    pub trace: Trace,
}

impl Link {
    /// The phase tag for a completion that goes to queue `cq_id` next; 1 where there
    /// is no such queue.
    pub open spec fn phase(self, cq_id: u16) -> u8 {
        if self.cqs.contains_key(cq_id) {
            self.cqs[cq_id].phase
        } else {
            1
        }
    }

    /// Queue `cq_id`, if there is one, is well formed.
    pub open spec fn postable(self, cq_id: u16) -> bool {
        self.cqs.contains_key(cq_id) ==> self.cqs[cq_id].wf()
    }

    /// One completion more: it is written to the slot at the tail of queue `cq_id`,
    /// and the interrupt of the queue is raised if it is due. A completion for a
    /// queue that does not exist is dropped.
    pub open spec fn posted(self, aggr_thr: u8, cq_id: u16, cqe: Cqe) -> Link {
        if self.cqs.contains_key(cq_id) {
            let q = self.cqs[cq_id];
            let t = self.trace.write(q.tail_gpa(), cqe.spec_bytes());
            Link {
                cqs: self.cqs.insert(cq_id, q.posted(cq_id, aggr_thr, self.trace.now)),
                trace: if q.post_fires(cq_id, aggr_thr) {
                    t.interrupt(q.interrupt_vector as u32)
                } else {
                    t
                },
            }
        } else {
            self
        }
    }
}

impl NvmeController {
    /// The completion queues of this controller, on link `t`.
    pub open spec fn link(&self, t: Trace) -> Link {
        Link { cqs: self.cqs@, trace: t }
    }

    /// The phase tag for a completion that goes to queue `cq_id` next; 1 where there
    /// is no such queue.
    pub open spec fn phase(&self, cq_id: u16) -> u8 {
        if self.cqs@.contains_key(cq_id) {
            self.cqs@[cq_id].phase
        } else {
            1
        }
    }

    /// See `phase`.
    pub(crate) fn phase_of(&self, cq_id: u16) -> (r: u8)
        ensures
            r == self.phase(cq_id),
    {
        match self.cqs.get(&cq_id) {
            Some(q) => q.phase,
            None => 1,
        }
    }

    /// Posts `cqe` to queue `cq_id`.
    pub fn post_cqe(&mut self, ctx: &mut DeviceCtx, cq_id: u16, cqe: Cqe)
        requires
            old(self).link(old(ctx)@).postable(cq_id),
        ensures
            final(self).link(final(ctx)@) == old(self).link(old(ctx)@).posted(
                old(self).irq_aggr_threshold,
                cq_id,
                cqe,
            ),
            *final(self) == (NvmeController { cqs: final(self).cqs, ..*old(self) }),
            final(self).cqs.capacity() == old(self).cqs.capacity(),
    {
        let aggr_thr: u8 = self.irq_aggr_threshold;
        let aggr_time_100us: u8 = self.irq_aggr_time;
        let now: u64 = ctx.now();
        let ghost before = self.link(ctx@);
        if let Some(cq) = self.cqs.get_mut(&cq_id) {
            let gpa: u64 = cq.base_gpa + cq.tail as u64 * CQE_BYTES;
            let iv: u16 = cq.interrupt_vector;
            proof {
                lemma_next_slot(cq.tail as int, cq.size as int);
            }
            cq.tail = (cq.tail + 1) % cq.size;
            if cq.tail == 0 {
                cq.phase = cq.phase ^ 1;
            }
            cq.pending_completions = cq.pending_completions.saturating_add(1);
            ctx.dma_write_fire_and_forget(gpa, cqe.as_bytes());
            if cq.interrupt_enabled {
                if should_fire_irq(cq_id, cq.pending_completions, aggr_thr, aggr_time_100us) {
                    cq.pending_completions = 0;
                    cq.last_fire = Some(now);
                    ctx.fire_interrupt(iv as u32);
                } else if cq.last_fire.is_none() {
                    cq.last_fire = Some(now);
                }
            }
        }
        assert(self.link(ctx@) =~= before.posted(aggr_thr, cq_id, cqe));
    }
}

/// One slot further on, going round at the end of the queue.
pub proof fn lemma_next_slot(tail: int, size: int)
    requires
        0 <= tail < size,
    ensures
        (tail + 1) % size == (if tail + 1 == size {
            0
        } else {
            tail + 1
        }),
{
    if tail + 1 == size {
        vstd::arithmetic::div_mod::lemma_mod_self_0(size);
    } else {
        vstd::arithmetic::div_mod::lemma_small_mod((tail + 1) as nat, size as nat);
    }
}

/// Posting keeps every queue well formed, so that any number of completions can follow.
pub proof fn law_post_keeps_queues(l: Link, aggr_thr: u8, cq_id: u16, cqe: Cqe, other: u16)
    requires
        l.postable(cq_id),
        l.postable(other),
    ensures
        l.posted(aggr_thr, cq_id, cqe).postable(other),
        l.posted(aggr_thr, cq_id, cqe).cqs.dom() == l.cqs.dom(),
{
    assert(l.posted(aggr_thr, cq_id, cqe).cqs.dom() =~= l.cqs.dom());
}

/// The queue after `n` more completions.
pub open spec fn advanced_by(q: CompletionQueue, n: nat) -> CompletionQueue
    decreases n,
{
    if n == 0 {
        q
    } else {
        advanced_by(q, (n - 1) as nat).advanced()
    }
}

/// Completions go to the slots one after the other, going round at the end of the queue,
/// and the phase tag is that of the number of passes.
pub proof fn law_queue_goes_round(q: CompletionQueue, n: nat)
    requires
        q.wf(),
        q.phase <= 1,
    ensures
        advanced_by(q, n).wf(),
        advanced_by(q, n).size == q.size,
        advanced_by(q, n).base_gpa == q.base_gpa,
        advanced_by(q, n).tail == (q.tail + n) % (q.size as int),
        advanced_by(q, n).phase == (q.phase + (q.tail + n) / (q.size as int)) % 2,
    decreases n,
{
    let size = q.size as int;
    if n == 0 {
        vstd::arithmetic::div_mod::lemma_small_mod(q.tail as nat, q.size as nat);
        vstd::arithmetic::div_mod::lemma_basic_div(q.tail as int, size);
    } else {
        law_queue_goes_round(q, (n - 1) as nat);
        let p = advanced_by(q, (n - 1) as nat);
        let m = q.tail + n - 1;
        let d = m / size;
        vstd::arithmetic::div_mod::lemma_fundamental_div_mod(m, size);
        let ph = p.phase;
        assert(ph <= 1 ==> ph ^ 1 == 1 - ph) by (bit_vector);
        if p.tail + 1 == q.size {
            assert(m + 1 == size * (d + 1) + 0) by (nonlinear_arith)
                requires
                    m == size * d + (size - 1),
            ;
            vstd::arithmetic::div_mod::lemma_fundamental_div_mod_converse(m + 1, size, d + 1, 0);
        } else {
            assert(m + 1 == d * size + (p.tail + 1)) by (nonlinear_arith)
                requires
                    m == size * d + p.tail,
            ;
            vstd::arithmetic::div_mod::lemma_fundamental_div_mod_converse(
                m + 1,
                size,
                d,
                p.tail + 1,
            );
        }
    }
}

/// A full pass over the queue comes back to the same slot with the other phase tag, so
/// that a host tells new completions from those of the pass before.
pub proof fn law_phase_flips_each_pass(q: CompletionQueue)
    requires
        q.wf(),
        q.phase <= 1,
    ensures
        advanced_by(q, q.size as nat).tail == q.tail,
        advanced_by(q, q.size as nat).phase == 1 - q.phase,
{
    let size = q.size as int;
    law_queue_goes_round(q, q.size as nat);
    vstd::arithmetic::div_mod::lemma_fundamental_div_mod_converse(
        q.tail + size,
        size,
        1,
        q.tail as int,
    );
}

/// Without aggregation every completion interrupts the host.
pub proof fn law_no_aggregation_fires_always(q: CompletionQueue, cq_id: u16)
    requires
        q.interrupt_enabled,
    ensures
        q.post_fires(cq_id, 0),
{
}

/// The queue after `n` completions were posted to it at time `now`.
pub open spec fn posted_by(q: CompletionQueue, cq_id: u16, aggr_thr: u8, now: u64, n: nat) -> CompletionQueue
    decreases n,
{
    if n == 0 {
        q
    } else {
        posted_by(q, cq_id, aggr_thr, now, (n - 1) as nat).posted(cq_id, aggr_thr, now)
    }
}

/// With a threshold, completions wait until one more than the threshold are there, and
/// the last of them interrupts the host.
pub proof fn law_threshold_counts_completions(
    q: CompletionQueue,
    cq_id: u16,
    aggr_thr: u8,
    now: u64,
    n: nat,
)
    requires
        cq_id != 0,
        q.interrupt_enabled,
        q.pending_completions == 0,
        n <= aggr_thr,
    ensures
        posted_by(q, cq_id, aggr_thr, now, n).interrupt_enabled,
        posted_by(q, cq_id, aggr_thr, now, n).pending_completions == n,
        posted_by(q, cq_id, aggr_thr, now, n).post_fires(cq_id, aggr_thr) <==> n == aggr_thr,
    decreases n,
{
    if n > 0 {
        law_threshold_counts_completions(q, cq_id, aggr_thr, now, (n - 1) as nat);
    }
}

/// Posting to one queue leaves every other queue alone, and all requests made before.
pub proof fn law_post_touches_one_queue(l: Link, aggr_thr: u8, cq_id: u16, cqe: Cqe, other: u16)
    requires
        other != cq_id,
        l.cqs.contains_key(other),
    ensures
        l.posted(aggr_thr, cq_id, cqe).cqs[other] == l.cqs[other],
        l.trace.extended_by(l.posted(aggr_thr, cq_id, cqe).trace),
{
}

} // verus!
