//! Shadow doorbells.
//!
//! With shadow doorbells the host keeps the tail of each submission queue and the
//! head of each completion queue in its own memory and rings the doorbell register
//! only where the event index, which the controller writes, tells it to. A ring then
//! means "look at the shadow", and its value is ignored. The controller reads the
//! shadow, takes in what is new, writes the event index and reads the shadow again,
//! until it finds nothing new: an update that the host made before it saw the event
//! index is caught by that last read.
use vstd::prelude::*;

use crate::bytes;
use crate::controller::ctx::{DeviceCtx, Trace};
use crate::controller::queues::Fetches;
use crate::controller::{FetchCtx, NvmeController, ShadowPollCtx};
use crate::regs::csts;
use crate::regs::{CompletionQueue, SubmissionQueue};

verus! {

broadcast use vstd::std_specs::hash::group_hash_axioms;

/// A chain of shadow reads may continue itself fewer times than this.
pub const MAX_SHADOW_POLL_ITERS: u32 = 65536;

/// The key of a doorbell: of queue `qid`, on its completion side or its submission side.
pub open spec fn doorbell_key(qid: u16, is_cq: bool) -> u32 {
    (qid * 2 + (if is_cq {
        1int
    } else {
        0int
    })) as u32
}

/// See `doorbell_key`.
pub fn poll_key(qid: u16, is_cq: bool) -> (r: u32)
    ensures
        r == doorbell_key(qid, is_cq),
{
    qid as u32 * 2 + if is_cq {
        1u32
    } else {
        0u32
    }
}

/// Different doorbells have different keys.
pub proof fn law_doorbell_keys_distinct(q1: u16, c1: bool, q2: u16, c2: bool)
    requires
        doorbell_key(q1, c1) == doorbell_key(q2, c2),
    ensures
        q1 == q2,
        c1 == c2,
{
}

/// What shadow doorbells read and change.
#[verifier::ext_equal]
pub struct Shadow {
    pub csts: u32,
    pub sqs: Map<u16, SubmissionQueue>,
    pub cqs: Map<u16, CompletionQueue>,
    pub fetches: Map<u64, FetchCtx>,
    pub shadow_gpa: u64,
    pub event_idx_gpa: u64,
    /// Shadow reads by token.
    pub polls: Map<u64, ShadowPollCtx>,
    /// Tokens of event index writes.
    pub writes: Set<u64>,
    /// Doorbells with a chain of reads in flight.
    pub inflight: Set<u32>,
    /// Doorbells rung while their chain was in flight.
    pub rung: Set<u32>,
    /// Values last written to doorbell registers.
    pub mmio: Map<u16, u32>,
    /// Event indices last written.
    pub event_idx: Map<u16, u32>,
    pub ahead: u64,
    pub trace: Trace,
}

impl Shadow {
    /// The host set up both buffers.
    pub open spec fn active(self) -> bool {
        self.shadow_gpa != 0 && self.event_idx_gpa != 0
    }

    /// Distance of the entry of a doorbell from the start of a buffer.
    pub open spec fn entry_offset(qid: u16, is_cq: bool) -> int {
        qid * 8 + (if is_cq {
            4int
        } else {
            0int
        })
    }

    /// Where the entry of a doorbell is in a buffer at `base`.
    pub open spec fn entry(base: u64, qid: u16, is_cq: bool) -> u64 {
        (base + Shadow::entry_offset(qid, is_cq)) as u64
    }

    /// The shadow of a doorbell has an address.
    pub open spec fn read_fits(self, qid: u16, is_cq: bool) -> bool {
        self.shadow_gpa + Shadow::entry_offset(qid, is_cq) <= u64::MAX
    }

    /// The event index of a doorbell has an address.
    pub open spec fn write_fits(self, qid: u16, is_cq: bool) -> bool {
        self.event_idx_gpa + Shadow::entry_offset(qid, is_cq) <= u64::MAX
    }

    /// Where ringing a doorbell starts a chain, its shadow has an address.
    pub open spec fn ring_fits(self, qid: u16, is_cq: bool) -> bool {
        self.active() && qid != 0 && !self.inflight.contains(doorbell_key(qid, is_cq))
            ==> self.read_fits(qid, is_cq)
    }

    /// The chain of submission queue `qid` can be continued once more, or given up.
    pub open spec fn chain_fits(self, qid: u16, iters: u32) -> bool {
        &&& iters < u32::MAX
        &&& iters + 1 < MAX_SHADOW_POLL_ITERS ==> self.read_fits(qid, false)
    }

    /// The controller is ready and was not shut down.
    pub open spec fn operational(self) -> bool {
        self.csts & csts::RDY != 0 && self.csts & csts::SHST_MASK != csts::SHST_COMPLETE
    }

    /// A read of the shadow is on its way.
    pub open spec fn read_issued(self, qid: u16, is_cq: bool, iters: u32) -> Shadow {
        Shadow {
            polls: self.polls.insert(self.trace.next_token, ShadowPollCtx { qid, is_cq, iters }),
            trace: self.trace.read(Shadow::entry(self.shadow_gpa, qid, is_cq), 4),
            ..self
        }
    }

    /// The event index `value` is on its way.
    pub open spec fn event_idx_written(self, qid: u16, is_cq: bool, value: u32) -> Shadow {
        Shadow {
            writes: self.writes.insert(self.trace.next_token),
            trace: self.trace.write(
                Shadow::entry(self.event_idx_gpa, qid, is_cq),
                bytes::le32_bytes(value),
            ),
            ..self
        }
    }

    /// The event index of submission queue `qid` is on its way, and remembered.
    pub open spec fn sq_event_idx_written(self, qid: u16, value: u32) -> Shadow {
        Shadow {
            event_idx: self.event_idx.insert(qid, value),
            ..self.event_idx_written(qid, false, value)
        }
    }

    /// The chain of a doorbell has ended, and with it any ring that it missed.
    pub open spec fn chain_ended(self, qid: u16, is_cq: bool) -> Shadow {
        Shadow {
            inflight: self.inflight.remove(doorbell_key(qid, is_cq)),
            rung: self.rung.remove(doorbell_key(qid, is_cq)),
            ..self
        }
    }

    /// The controller has failed.
    pub open spec fn failed(self) -> Shadow {
        Shadow { csts: self.csts | csts::CFS, ..self }
    }

    /// A doorbell was rung: a chain starts, unless one is in flight, which then has to
    /// look once more.
    pub open spec fn rung_at(self, qid: u16, is_cq: bool) -> Shadow {
        let key = doorbell_key(qid, is_cq);
        if !self.active() || qid == 0 {
            self
        } else if self.inflight.contains(key) {
            Shadow { rung: self.rung.insert(key), ..self }
        } else {
            (Shadow { inflight: self.inflight.insert(key), ..self }).read_issued(qid, is_cq, 0)
        }
    }

    /// Submission queue `qid` was brought up to `tail`.
    pub open spec fn sq_taken(self, qid: u16, tail: u32) -> Shadow {
        let q = self.sqs[qid];
        let f = (Fetches { pending: self.fetches, trace: self.trace }).up_to(qid, q, tail);
        Shadow {
            sqs: self.sqs.insert(qid, SubmissionQueue { tail, ..q }),
            fetches: f.pending,
            trace: f.trace,
            ..self
        }
    }

    /// The chain of submission queue `qid` continues, unless it has done so too often.
    pub open spec fn chain_continued(self, qid: u16, iters: u32) -> Shadow {
        if iters + 1 >= MAX_SHADOW_POLL_ITERS {
            self.failed().chain_ended(qid, false)
        } else {
            self.read_issued(qid, false, (iters + 1) as u32)
        }
    }

    /// The shadow is neither what was taken in nor what the register was told last.
    pub open spec fn shadow_ahead(self, qid: u16, shadow: u32) -> bool {
        self.mmio.contains_key(qid) && self.mmio[qid] != shadow
    }

    /// The shadow of the tail of submission queue `qid` read `shadow`, in the
    /// `iters`-th continuation of its chain.
    pub open spec fn sq_shadow_read(self, qid: u16, shadow: u32, iters: u32) -> Shadow {
        if !self.sqs.contains_key(qid) {
            self.chain_ended(qid, false)
        } else if shadow >= self.sqs[qid].size {
            self.failed().chain_ended(qid, false)
        } else if shadow != self.sqs[qid].tail {
            (Shadow {
                ahead: if self.shadow_ahead(qid, shadow) {
                    (self.ahead + 1) as u64
                } else {
                    self.ahead
                },
                ..self
            }).sq_taken(qid, shadow).sq_event_idx_written(qid, shadow).chain_continued(qid, iters)
        } else {
            let s = if self.event_idx.contains_key(qid) && self.event_idx[qid] == shadow {
                self
            } else {
                self.sq_event_idx_written(qid, shadow)
            };
            let key = doorbell_key(qid, false);
            if self.rung.contains(key) {
                (Shadow { rung: s.rung.remove(key), ..s }).chain_continued(qid, iters)
            } else {
                Shadow { inflight: s.inflight.remove(key), ..s }
            }
        }
    }

    /// The shadow of the head of completion queue `qid` read `shadow`.
    pub open spec fn cq_shadow_read(self, qid: u16, shadow: u32) -> Shadow {
        let key = doorbell_key(qid, true);
        if !self.cqs.contains_key(qid) || shadow >= self.cqs[qid].size {
            self.chain_ended(qid, true)
        } else {
            let s = (Shadow {
                cqs: self.cqs.insert(qid, CompletionQueue { head: shadow, ..self.cqs[qid] }),
                ..self
            }).event_idx_written(qid, true, shadow);
            if self.rung.contains(key) {
                (Shadow { rung: s.rung.remove(key), ..s }).read_issued(qid, true, 0)
            } else {
                Shadow { inflight: s.inflight.remove(key), ..s }
            }
        }
    }

    /// The read `p` of a shadow ended; a failed or short read ends the chain.
    pub open spec fn poll_ended(self, p: ShadowPollCtx, ok: bool, data: Seq<u8>) -> Shadow {
        if !ok || data.len() < 4 {
            self.chain_ended(p.qid, p.is_cq)
        } else if p.is_cq {
            self.cq_shadow_read(p.qid, bytes::le32_at(data, 0))
        } else {
            self.sq_shadow_read(p.qid, bytes::le32_at(data, 0), p.iters)
        }
    }

    /// `new_tail` was written to the doorbell register of submission queue `sq_id`.
    /// Nothing happens unless the controller is operational. With shadow doorbells
    /// the value only tells that the shadow changed; the admin queue has no shadow.
    pub open spec fn sq_doorbell(self, sq_id: u16, new_tail: u32) -> Shadow {
        if !self.operational() {
            self
        } else if self.active() && sq_id != 0 {
            if self.sqs.contains_key(sq_id) {
                (Shadow { mmio: self.mmio.insert(sq_id, new_tail), ..self }).rung_at(sq_id, false)
            } else {
                self
            }
        } else if !self.sqs.contains_key(sq_id) {
            self
        } else if new_tail >= self.sqs[sq_id].size {
            self.failed()
        } else {
            self.sq_taken(sq_id, new_tail)
        }
    }

    /// `new_head` was written to the doorbell register of completion queue `cq_id`.
    pub open spec fn cq_doorbell(self, cq_id: u16, new_head: u32) -> Shadow {
        if self.cqs.contains_key(cq_id) {
            (Shadow {
                cqs: self.cqs.insert(
                    cq_id,
                    CompletionQueue { head: new_head, ..self.cqs[cq_id] },
                ),
                ..self
            }).rung_at(cq_id, true)
        } else {
            self
        }
    }

    /// Shadow doorbells are off, and nothing of them is left.
    pub open spec fn cleared(self) -> Shadow {
        Shadow {
            shadow_gpa: 0,
            event_idx_gpa: 0,
            polls: Map::empty(),
            writes: Set::empty(),
            inflight: Set::empty(),
            rung: Set::empty(),
            mmio: Map::empty(),
            event_idx: Map::empty(),
            ..self
        }
    }

    /// The limits of the machine leave room for what follows when the tail of queue `qid`
    /// reads `shadow`.
    pub open spec fn sq_shadow_fits(self, qid: u16, shadow: u32, iters: u32) -> bool {
        self.sqs.contains_key(qid) && shadow < self.sqs[qid].size ==> if shadow
            != self.sqs[qid].tail {
            &&& self.shadow_ahead(qid, shadow) ==> self.ahead < u64::MAX
            &&& self.sqs[qid].fetchable(shadow)
            &&& self.write_fits(qid, false)
            &&& self.chain_fits(qid, iters)
        } else {
            &&& !(self.event_idx.contains_key(qid) && self.event_idx[qid] == shadow)
                ==> self.write_fits(qid, false)
            &&& self.rung.contains(doorbell_key(qid, false)) ==> self.chain_fits(qid, iters)
        }
    }

    /// The limits of the machine leave room for what follows when the head of queue `qid`
    /// reads `shadow`.
    pub open spec fn cq_shadow_fits(self, qid: u16, shadow: u32) -> bool {
        self.cqs.contains_key(qid) && shadow < self.cqs[qid].size ==> {
            &&& self.write_fits(qid, true)
            &&& self.rung.contains(doorbell_key(qid, true)) ==> self.read_fits(qid, true)
        }
    }

    /// The limits of the machine leave room for what follows when the read `p` ends.
    pub open spec fn poll_fits(self, p: ShadowPollCtx, ok: bool, data: Seq<u8>) -> bool {
        ok && data.len() >= 4 ==> if p.is_cq {
            self.cq_shadow_fits(p.qid, bytes::le32_at(data, 0))
        } else {
            self.sq_shadow_fits(p.qid, bytes::le32_at(data, 0), p.iters)
        }
    }
}

impl NvmeController {
    /// The part of this controller that shadow doorbells read and change, on link `t`.
    pub open spec fn shadow(&self, t: Trace) -> Shadow {
        Shadow {
            csts: self.csts,
            sqs: self.sqs@,
            cqs: self.cqs@,
            fetches: self.pending_fetches@,
            shadow_gpa: self.doorbell_shadow_gpa,
            event_idx_gpa: self.doorbell_event_idx_gpa,
            polls: self.pending_shadow_polls@,
            writes: self.pending_eventidx_writes@,
            inflight: self.shadow_poll_inflight@,
            rung: self.shadow_ring_pending@,
            mmio: self.last_mmio_sq_doorbell@,
            event_idx: self.last_eventidx_sq@,
            ahead: self.dbbuf_shadow_ahead_count,
            trace: t,
        }
    }

    /// `self` differs from `other` at most in what shadow doorbells change, and the
    /// tables are as large as before.
    pub open spec fn same_but_shadow(&self, other: NvmeController) -> bool {
        &&& *self == (NvmeController {
            csts: self.csts,
            sqs: self.sqs,
            cqs: self.cqs,
            pending_fetches: self.pending_fetches,
            pending_shadow_polls: self.pending_shadow_polls,
            pending_eventidx_writes: self.pending_eventidx_writes,
            shadow_poll_inflight: self.shadow_poll_inflight,
            shadow_ring_pending: self.shadow_ring_pending,
            last_mmio_sq_doorbell: self.last_mmio_sq_doorbell,
            last_eventidx_sq: self.last_eventidx_sq,
            dbbuf_shadow_ahead_count: self.dbbuf_shadow_ahead_count,
            doorbell_shadow_gpa: self.doorbell_shadow_gpa,
            doorbell_event_idx_gpa: self.doorbell_event_idx_gpa,
            ..other
        })
        &&& self.sqs.capacity() == other.sqs.capacity()
        &&& self.cqs.capacity() == other.cqs.capacity()
    }

    /// Whether the host uses shadow doorbells.
    pub fn dbbuf_active(&self) -> (r: bool)
        ensures
            forall|t: Trace| r == (#[trigger] self.shadow(t)).active(),
    {
        self.doorbell_shadow_gpa != 0 && self.doorbell_event_idx_gpa != 0
    }

    fn issue_shadow_read(&mut self, ctx: &mut DeviceCtx, qid: u16, is_cq: bool, iters: u32)
        requires
            old(self).shadow(old(ctx)@).read_fits(qid, is_cq),
        ensures
            final(self).shadow(final(ctx)@) == old(self).shadow(old(ctx)@).read_issued(
                qid,
                is_cq,
                iters,
            ),
            final(self).same_but_shadow(*old(self)),
    {
        let off: u64 = qid as u64 * 8 + if is_cq {
            4u64
        } else {
            0u64
        };
        let gpa: u64 = self.doorbell_shadow_gpa + off;
        let token: u64 = ctx.dma_read(gpa, 4);
        self.pending_shadow_polls.insert(token, ShadowPollCtx { qid, is_cq, iters });
    }

    fn write_eventidx(&mut self, ctx: &mut DeviceCtx, qid: u16, is_cq: bool, value: u32)
        requires
            old(self).shadow(old(ctx)@).write_fits(qid, is_cq),
        ensures
            final(self).shadow(final(ctx)@) == old(self).shadow(old(ctx)@).event_idx_written(
                qid,
                is_cq,
                value,
            ),
            final(self).same_but_shadow(*old(self)),
    {
        let off: u64 = qid as u64 * 8 + if is_cq {
            4u64
        } else {
            0u64
        };
        let gpa: u64 = self.doorbell_event_idx_gpa + off;
        let token: u64 = ctx.dma_write(gpa, bytes::u32_to_le(value));
        self.pending_eventidx_writes.insert(token);
    }

    /// The doorbell of submission queue `qid` was rung.
    pub fn start_shadow_sq_poll(&mut self, ctx: &mut DeviceCtx, qid: u16)
        requires
            old(self).shadow(old(ctx)@).ring_fits(qid, false),
        ensures
            final(self).shadow(final(ctx)@) == old(self).shadow(old(ctx)@).rung_at(qid, false),
            final(self).same_but_shadow(*old(self)),
    {
        self.start_shadow_poll(ctx, qid, false);
    }

    /// The doorbell of completion queue `qid` was rung.
    pub fn start_shadow_cq_poll(&mut self, ctx: &mut DeviceCtx, qid: u16)
        requires
            old(self).shadow(old(ctx)@).ring_fits(qid, true),
        ensures
            final(self).shadow(final(ctx)@) == old(self).shadow(old(ctx)@).rung_at(qid, true),
            final(self).same_but_shadow(*old(self)),
    {
        self.start_shadow_poll(ctx, qid, true);
    }

    fn start_shadow_poll(&mut self, ctx: &mut DeviceCtx, qid: u16, is_cq: bool)
        requires
            old(self).shadow(old(ctx)@).ring_fits(qid, is_cq),
        ensures
            final(self).shadow(final(ctx)@) == old(self).shadow(old(ctx)@).rung_at(qid, is_cq),
            final(self).same_but_shadow(*old(self)),
    {
        if !self.dbbuf_active() || qid == 0 {
            return ;
        }
        let ghost before = self.shadow(ctx@);
        let key: u32 = poll_key(qid, is_cq);
        if !self.shadow_poll_inflight.insert(key) {
            self.shadow_ring_pending.insert(key);
            assert(before.inflight.insert(key) =~= before.inflight);
            return ;
        }
        self.issue_shadow_read(ctx, qid, is_cq, 0);
    }

    fn end_chain(&mut self, qid: u16, is_cq: bool)
        ensures
            forall|t: Trace|
                #[trigger] final(self).shadow(t) == old(self).shadow(t).chain_ended(qid, is_cq),
            final(self).same_but_shadow(*old(self)),
    {
        let key: u32 = poll_key(qid, is_cq);
        self.shadow_poll_inflight.remove(&key);
        self.shadow_ring_pending.remove(&key);
        assert(self.shadow_poll_inflight@ =~= old(self).shadow_poll_inflight@.remove(key));
        assert(self.shadow_ring_pending@ =~= old(self).shadow_ring_pending@.remove(key));
    }

    /// Continues the chain of submission queue `qid`, or gives up where it has
    /// continued itself too often.
    fn continue_chain(&mut self, ctx: &mut DeviceCtx, qid: u16, iters: u32)
        requires
            old(self).shadow(old(ctx)@).chain_fits(qid, iters),
        ensures
            final(self).shadow(final(ctx)@) == old(self).shadow(old(ctx)@).chain_continued(
                qid,
                iters,
            ),
            final(self).same_but_shadow(*old(self)),
    {
        let next_iters: u32 = iters + 1;
        if next_iters >= MAX_SHADOW_POLL_ITERS {
            self.csts = self.csts | csts::CFS;
            self.end_chain(qid, false);
            return ;
        }
        self.issue_shadow_read(ctx, qid, false, next_iters);
    }

    /// `new_tail` was written to the doorbell register of submission queue `sq_id`.
    pub fn on_sq_tail_doorbell(&mut self, ctx: &mut DeviceCtx, sq_id: u16, new_tail: u32)
        requires
            ({
                let s = old(self).shadow(old(ctx)@);
                s.operational() && s.sqs.contains_key(sq_id) ==> if s.active() && sq_id != 0 {
                    s.ring_fits(sq_id, false)
                } else {
                    new_tail < s.sqs[sq_id].size && new_tail != s.sqs[sq_id].tail
                        ==> s.sqs[sq_id].fetchable(new_tail)
                }
            }),
        ensures
            final(self).shadow(final(ctx)@) == old(self).shadow(old(ctx)@).sq_doorbell(
                sq_id,
                new_tail,
            ),
            final(self).same_but_shadow(*old(self)),
    {
        let shut_down: bool = (self.csts & csts::SHST_MASK) == csts::SHST_COMPLETE;
        if self.csts & csts::RDY == 0 || shut_down {
            return ;
        }
        let ghost s = self.shadow(ctx@);
        if self.dbbuf_active() && sq_id != 0 {
            if !self.sqs.contains_key(&sq_id) {
                return ;
            }
            self.last_mmio_sq_doorbell.insert(sq_id, new_tail);
            assert(self.shadow(ctx@) =~= (Shadow { mmio: s.mmio.insert(sq_id, new_tail), ..s }));
            self.start_shadow_sq_poll(ctx, sq_id);
            return ;
        }
        let taken: bool = self.advance_sq_to_tail(ctx, sq_id, new_tail);
        assert(taken ==> self.shadow(ctx@) =~= s.sq_taken(sq_id, new_tail));
        assert(!taken ==> self.fetches(ctx@).trace == s.trace);
    }

    /// `new_head` was written to the doorbell register of completion queue `cq_id`.
    pub fn on_cq_head_doorbell(&mut self, ctx: &mut DeviceCtx, cq_id: u16, new_head: u32)
        requires
            ({
                let s = old(self).shadow(old(ctx)@);
                s.cqs.contains_key(cq_id) ==> s.ring_fits(cq_id, true)
            }),
        ensures
            final(self).shadow(final(ctx)@) == old(self).shadow(old(ctx)@).cq_doorbell(
                cq_id,
                new_head,
            ),
            final(self).same_but_shadow(*old(self)),
    {
        let ghost s = self.shadow(ctx@);
        match self.cqs.get_mut(&cq_id) {
            Some(cq) => {
                cq.head = new_head;
            },
            None => {
                return ;
            },
        }
        assert(self.shadow(ctx@) =~= (Shadow {
            cqs: s.cqs.insert(cq_id, CompletionQueue { head: new_head, ..s.cqs[cq_id] }),
            ..s
        }));
        if self.dbbuf_active() && cq_id != 0 {
            self.start_shadow_cq_poll(ctx, cq_id);
        }
    }

    /// Turns shadow doorbells off, as a reset does.
    pub fn clear_dbbuf(&mut self)
        ensures
            forall|t: Trace|
                #[trigger] final(self).shadow(t) == old(self).shadow(t).cleared(),
            final(self).same_but_shadow(*old(self)),
    {
        self.doorbell_shadow_gpa = 0;
        self.doorbell_event_idx_gpa = 0;
        self.pending_shadow_polls.clear();
        self.pending_eventidx_writes.clear();
        self.shadow_poll_inflight.clear();
        self.shadow_ring_pending.clear();
        self.last_mmio_sq_doorbell.clear();
        self.last_eventidx_sq.clear();
    }

    /// A read of a shadow doorbell ended.
    pub fn handle_shadow_poll_complete(
        &mut self,
        ctx: &mut DeviceCtx,
        p: ShadowPollCtx,
        ok: bool,
        data: Vec<u8>,
    )
        requires
            old(self).shadow(old(ctx)@).poll_fits(p, ok, data@),
        ensures
            final(self).shadow(final(ctx)@) == old(self).shadow(old(ctx)@).poll_ended(p, ok, data@),
            final(self).same_but_shadow(*old(self)),
    {
        if !ok || data.len() < 4 {
            self.end_chain(p.qid, p.is_cq);
            return ;
        }
        let shadow: u32 = bytes::read_le32(data.as_slice(), 0);
        if p.is_cq {
            self.handle_shadow_cq(ctx, p.qid, shadow);
        } else {
            self.handle_shadow_sq(ctx, p.qid, shadow, p.iters);
        }
    }

    /// The shadow of the tail of submission queue `qid` read `shadow`.
    pub fn handle_shadow_sq(&mut self, ctx: &mut DeviceCtx, qid: u16, shadow: u32, iters: u32)
        requires
            old(self).shadow(old(ctx)@).sq_shadow_fits(qid, shadow, iters),
        ensures
            final(self).shadow(final(ctx)@) == old(self).shadow(old(ctx)@).sq_shadow_read(
                qid,
                shadow,
                iters,
            ),
            final(self).same_but_shadow(*old(self)),
    {
        let ghost s0 = self.shadow(ctx@);
        let q: SubmissionQueue = match self.sqs.get(&qid) {
            Some(q) => *q,
            None => {
                self.end_chain(qid, false);
                return ;
            },
        };
        if shadow >= q.size {
            self.csts = self.csts | csts::CFS;
            self.end_chain(qid, false);
            return ;
        }
        if shadow != q.tail {
            match self.last_mmio_sq_doorbell.get(&qid) {
                Some(m) => {
                    if *m != shadow {
                        self.dbbuf_shadow_ahead_count = self.dbbuf_shadow_ahead_count + 1;
                    }
                },
                None => {},
            }
            let ghost s1 = self.shadow(ctx@);
            let _ = self.advance_sq_to_tail(ctx, qid, shadow);
            assert(self.shadow(ctx@) =~= s1.sq_taken(qid, shadow));
            self.write_eventidx(ctx, qid, false, shadow);
            self.last_eventidx_sq.insert(qid, shadow);
            self.continue_chain(ctx, qid, iters);
        } else {
            let known: bool = match self.last_eventidx_sq.get(&qid) {
                Some(e) => *e == shadow,
                None => false,
            };
            if !known {
                self.write_eventidx(ctx, qid, false, shadow);
                self.last_eventidx_sq.insert(qid, shadow);
            }
            let key: u32 = poll_key(qid, false);
            let ghost s1 = self.shadow(ctx@);
            if self.shadow_ring_pending.remove(&key) {
                assert(self.shadow(ctx@) =~= (Shadow { rung: s1.rung.remove(key), ..s1 }));
                self.continue_chain(ctx, qid, iters);
                return ;
            }
            self.shadow_poll_inflight.remove(&key);
            assert(self.shadow(ctx@) =~= (Shadow { inflight: s1.inflight.remove(key), ..s1 }));
        }
    }

    /// The shadow of the head of completion queue `qid` read `shadow`.
    pub fn handle_shadow_cq(&mut self, ctx: &mut DeviceCtx, qid: u16, shadow: u32)
        requires
            old(self).shadow(old(ctx)@).cq_shadow_fits(qid, shadow),
        ensures
            final(self).shadow(final(ctx)@) == old(self).shadow(old(ctx)@).cq_shadow_read(
                qid,
                shadow,
            ),
            final(self).same_but_shadow(*old(self)),
    {
        let size: u32 = match self.cqs.get(&qid) {
            Some(q) => q.size,
            None => 0,
        };
        if size == 0 || shadow >= size {
            self.end_chain(qid, true);
            return ;
        }
        if let Some(cq) = self.cqs.get_mut(&qid) {
            cq.head = shadow;
        }
        self.write_eventidx(ctx, qid, true, shadow);
        let key: u32 = poll_key(qid, true);
        let ghost s1 = self.shadow(ctx@);
        if self.shadow_ring_pending.remove(&key) {
            assert(self.shadow(ctx@) =~= (Shadow { rung: s1.rung.remove(key), ..s1 }));
            self.issue_shadow_read(ctx, qid, true, 0);
            return ;
        }
        self.shadow_poll_inflight.remove(&key);
        assert(self.shadow(ctx@) =~= (Shadow { inflight: s1.inflight.remove(key), ..s1 }));
    }
}

} // verus!
