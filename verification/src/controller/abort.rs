//! Aborting a command that waits for transfers.
use vstd::prelude::*;

use crate::cmd;
use crate::cmd::sc;
use crate::cmd::{Cqe, Sqe};
use crate::controller::ctx::{DeviceCtx, Trace};
use crate::controller::device;
use crate::controller::device::DmaRoute;
use crate::controller::inflight;
use crate::controller::inflight::AbortableOp;
use crate::controller::post::Link;
use crate::controller::NvmeController;

verus! {

broadcast use vstd::std_specs::hash::group_hash_axioms;

/// `m` holds something for command `c`.
pub open spec fn holds<T: AbortableOp>(m: Map<u64, T>, c: (u16, u16)) -> bool {
    exists|t: u64| #[trigger] m.contains_key(t) && m[t].command() == c
}

/// Table `before` was looked through for command `c` where `here` holds, with result
/// `r`, and became `after`; else it was left alone.
pub open spec fn scanned_if<T: AbortableOp>(
    here: bool,
    before: Map<u64, T>,
    after: Map<u64, T>,
    c: (u16, u16),
    r: Option<(u16, u16)>,
) -> bool {
    if here {
        inflight::scanned(before, after, c, r)
    } else {
        after == before
    }
}

/// The tables of multi-transfer operations were looked through in order up to the
/// first one that holds something for command `c`, with result `r`: that table lost
/// one such entry, and `r` is where its completion goes.
pub open spec fn accumulators_scanned(
    before: NvmeController,
    after: NvmeController,
    c: (u16, u16),
    r: Option<(u16, u16)>,
) -> bool {
    let h1 = holds(before.dual_prp_writes@, c);
    let h2 = h1 || holds(before.compare_ops@, c);
    let h3 = h2 || holds(before.pi_writes@, c);
    let h4 = h3 || holds(before.pi_reads@, c);
    let h5 = h4 || holds(before.prp_list_ops@, c);
    let h6 = h5 || holds(before.sgl_ops@, c);
    let h7 = h6 || holds(before.sep_meta_writes@, c);
    let h8 = h7 || holds(before.sep_meta_reads@, c);
    &&& scanned_if(h1, before.dual_prp_writes@, after.dual_prp_writes@, c, r)
    &&& scanned_if(h2 && !h1, before.compare_ops@, after.compare_ops@, c, r)
    &&& scanned_if(h3 && !h2, before.pi_writes@, after.pi_writes@, c, r)
    &&& scanned_if(h4 && !h3, before.pi_reads@, after.pi_reads@, c, r)
    &&& scanned_if(h5 && !h4, before.prp_list_ops@, after.prp_list_ops@, c, r)
    &&& scanned_if(h6 && !h5, before.sgl_ops@, after.sgl_ops@, c, r)
    &&& scanned_if(h7 && !h6, before.sep_meta_writes@, after.sep_meta_writes@, c, r)
    &&& scanned_if(h8 && !h7, before.sep_meta_reads@, after.sep_meta_reads@, c, r)
    &&& r is Some <==> h8
}

/// The first command of a fused pair that waits on queue `c.0` is command `c`.
pub open spec fn fused_waits(s: NvmeController, c: (u16, u16)) -> bool {
    s.pending_fused@.contains_key(c.0) && s.pending_fused@[c.0].0.spec_cid() == c.1
}

/// `m` holds something for command `c` whose completion goes to queue `q`.
pub open spec fn holds_for<T: AbortableOp>(m: Map<u64, T>, c: (u16, u16), q: u16) -> bool {
    exists|t: u64| #[trigger] m.contains_key(t) && m[t].command() == c && m[t].target().0 == q
}

/// Aborting command `c` may post to queue `q`.
pub open spec fn abort_may_reach(s: NvmeController, c: (u16, u16), q: u16) -> bool {
    ||| holds_for(s.dual_prp_writes@, c, q)
    ||| holds_for(s.compare_ops@, c, q)
    ||| holds_for(s.pi_writes@, c, q)
    ||| holds_for(s.pi_reads@, c, q)
    ||| holds_for(s.prp_list_ops@, c, q)
    ||| holds_for(s.sgl_ops@, c, q)
    ||| holds_for(s.sep_meta_writes@, c, q)
    ||| holds_for(s.sep_meta_reads@, c, q)
    ||| holds_for(s.pending_ios@, c, q)
    ||| fused_waits(s, c) && s.sqs@.contains_key(c.0) && s.sqs@[c.0].cq_id == q
}

/// Where the completion of command `c` goes: as its multi-transfer operation says,
/// else as its transfers say, else, for the first command of a fused pair, as its
/// queue says.
pub open spec fn abort_target_of(
    s: NvmeController,
    c: (u16, u16),
    acc: Option<(u16, u16)>,
    io: Option<(u16, u16)>,
) -> Option<(u16, u16)> {
    if acc is Some {
        acc
    } else if io is Some {
        io
    } else if fused_waits(s, c) && s.sqs@.contains_key(c.0) {
        Some((s.sqs@[c.0].cq_id, s.pending_fused@[c.0].1))
    } else {
        None
    }
}

/// What aborting command `c` may do: nothing of it waits any more, and it completes
/// once, where anything of it was found.
pub open spec fn aborted(
    before: NvmeController,
    link: Link,
    after: NvmeController,
    link_after: Link,
    c: (u16, u16),
    r: bool,
    acc: Option<(u16, u16)>,
    io: Option<(u16, u16)>,
) -> bool {
    let target = abort_target_of(before, c, acc, io);
    &&& accumulators_scanned(before, after, c, acc)
    &&& inflight::swept(before.pending_ios@, after.pending_ios@, c, io)
    &&& after.pending_fused@ == (if acc is None && io is None && fused_waits(before, c) {
        before.pending_fused@.remove(c.0)
    } else {
        before.pending_fused@
    })
    &&& r == (target is Some)
    &&& link_after == (match target {
        Some((cq_id, sq_head)) => link.posted(
            before.irq_aggr_threshold,
            cq_id,
            cmd::cqe_of(c.1, c.0, sq_head, link.phase(cq_id), sc::COMMAND_ABORT_REQUESTED),
        ),
        None => link,
    })
}

impl NvmeController {
    /// Takes the operation of command `cid` of queue `sqid` out of the tables of
    /// multi-transfer operations.
    fn scan_accumulators(&mut self, sqid: u16, cid: u16) -> (r: Option<(u16, u16)>)
        ensures
            accumulators_scanned(*old(self), *final(self), (sqid, cid), r),
            *final(self) == (NvmeController {
                dual_prp_writes: final(self).dual_prp_writes,
                compare_ops: final(self).compare_ops,
                pi_writes: final(self).pi_writes,
                pi_reads: final(self).pi_reads,
                prp_list_ops: final(self).prp_list_ops,
                sgl_ops: final(self).sgl_ops,
                sep_meta_writes: final(self).sep_meta_writes,
                sep_meta_reads: final(self).sep_meta_reads,
                ..*old(self)
            }),
    {
        let r = inflight::abort_scan(&mut self.dual_prp_writes, sqid, cid);
        if r.is_some() {
            return r;
        }
        let r = inflight::abort_scan(&mut self.compare_ops, sqid, cid);
        if r.is_some() {
            return r;
        }
        let r = inflight::abort_scan(&mut self.pi_writes, sqid, cid);
        if r.is_some() {
            return r;
        }
        let r = inflight::abort_scan(&mut self.pi_reads, sqid, cid);
        if r.is_some() {
            return r;
        }
        let r = inflight::abort_scan(&mut self.prp_list_ops, sqid, cid);
        if r.is_some() {
            return r;
        }
        let r = inflight::abort_scan(&mut self.sgl_ops, sqid, cid);
        if r.is_some() {
            return r;
        }
        let r = inflight::abort_scan(&mut self.sep_meta_writes, sqid, cid);
        if r.is_some() {
            return r;
        }
        inflight::abort_scan(&mut self.sep_meta_reads, sqid, cid)
    }

    /// Aborts command `cid` of queue `sqid`: everything held for it goes, so that its
    /// transfers, when they end, are nobody's, and it completes as aborted. The result
    /// is `false` where nothing of it waits.
    pub fn try_abort_inflight(&mut self, ctx: &mut DeviceCtx, sqid: u16, cid: u16) -> (r: bool)
        requires
            forall|q: u16| #[trigger]
                abort_may_reach(*old(self), (sqid, cid), q) ==> old(self).link(
                    old(ctx)@,
                ).postable(q),
        ensures
            exists|acc: Option<(u16, u16)>, io: Option<(u16, u16)>| #[trigger]
                aborted(
                    *old(self),
                    old(self).link(old(ctx)@),
                    *final(self),
                    final(self).link(final(ctx)@),
                    (sqid, cid),
                    r,
                    acc,
                    io,
                ),
            *final(self) == (NvmeController {
                dual_prp_writes: final(self).dual_prp_writes,
                compare_ops: final(self).compare_ops,
                pi_writes: final(self).pi_writes,
                pi_reads: final(self).pi_reads,
                prp_list_ops: final(self).prp_list_ops,
                sgl_ops: final(self).sgl_ops,
                sep_meta_writes: final(self).sep_meta_writes,
                sep_meta_reads: final(self).sep_meta_reads,
                pending_ios: final(self).pending_ios,
                pending_fused: final(self).pending_fused,
                cqs: final(self).cqs,
                ..*old(self)
            }),
            final(self).cqs.capacity() == old(self).cqs.capacity(),
    {
        let acc = self.scan_accumulators(sqid, cid);
        let io = inflight::sweep_command(&mut self.pending_ios, sqid, cid);
        let mut target: Option<(u16, u16)> = acc;
        if target.is_none() {
            target = io;
        }
        if target.is_none() {
            let hit: bool = match self.pending_fused.get(&sqid) {
                Some(f) => f.0.cid() == cid,
                None => false,
            };
            if hit {
                let first: Option<(Sqe, u16)> = self.pending_fused.remove(&sqid);
                target = match (first, self.sqs.get(&sqid)) {
                    (Some(f), Some(q)) => Some((q.cq_id, f.1)),
                    _ => None,
                };
            }
        }
        let r: bool = match target {
            Some((cq_id, sq_head)) => {
                assert(abort_may_reach(*old(self), (sqid, cid), cq_id));
                let phase: u8 = self.phase_of(cq_id);
                self.post_cqe(
                    ctx,
                    cq_id,
                    Cqe::error(cid, sqid, sq_head, phase, sc::COMMAND_ABORT_REQUESTED),
                );
                true
            },
            None => false,
        };
        assert(aborted(
            *old(self),
            old(self).link(old(ctx)@),
            *self,
            self.link(ctx@),
            (sqid, cid),
            r,
            acc,
            io,
        ));
        r
    }
}

/// After an abort no transfer of the command is in flight, and every other transfer
/// is as before.
pub proof fn law_abort_sweeps_transfers(
    before: NvmeController,
    link: Link,
    after: NvmeController,
    link_after: Link,
    c: (u16, u16),
    r: bool,
    acc: Option<(u16, u16)>,
    io: Option<(u16, u16)>,
    t: u64,
)
    requires
        aborted(before, link, after, link_after, c, r, acc, io),
    ensures
        !holds(after.pending_ios@, c),
        before.pending_ios@.contains_key(t) && before.pending_ios@[t].command() != c
            ==> after.pending_ios@.contains_key(t) && after.pending_ios@[t]
            == before.pending_ios@[t],
        after.pending_ios@.contains_key(t) ==> before.pending_ios@.contains_key(t),
{
}

/// An abort succeeds exactly where something of the command waits: a multi-transfer
/// operation, a transfer, or the first command of a fused pair on a queue that is
/// still there. It then posts one completion, and else none.
pub proof fn law_abort_succeeds_iff_found(
    before: NvmeController,
    link: Link,
    after: NvmeController,
    link_after: Link,
    c: (u16, u16),
    r: bool,
    acc: Option<(u16, u16)>,
    io: Option<(u16, u16)>,
)
    requires
        aborted(before, link, after, link_after, c, r, acc, io),
    ensures
        r <==> ({
            ||| holds(before.dual_prp_writes@, c)
            ||| holds(before.compare_ops@, c)
            ||| holds(before.pi_writes@, c)
            ||| holds(before.pi_reads@, c)
            ||| holds(before.prp_list_ops@, c)
            ||| holds(before.sgl_ops@, c)
            ||| holds(before.sep_meta_writes@, c)
            ||| holds(before.sep_meta_reads@, c)
            ||| holds(before.pending_ios@, c)
            ||| fused_waits(before, c) && before.sqs@.contains_key(c.0)
        }),
        !r ==> link_after == link,
{
}

/// The transfers of an aborted command are nobody's when they end.
pub proof fn law_aborted_transfer_is_unknown(
    before: NvmeController,
    link: Link,
    after: NvmeController,
    link_after: Link,
    c: (u16, u16),
    r: bool,
    acc: Option<(u16, u16)>,
    io: Option<(u16, u16)>,
    token: u64,
    t: Trace,
    ended: NvmeController,
    t_ended: Trace,
    ok: bool,
    data: Seq<u8>,
    route: DmaRoute,
)
    requires
        aborted(before, link, after, link_after, c, r, acc, io),
        before.pending_ios@.contains_key(token),
        before.pending_ios@[token].command() == c,
        !after.pending_shadow_polls@.contains_key(token),
        !after.pending_eventidx_writes@.contains(token),
        !after.pending_fetches@.contains_key(token),
        device::dma_ended(after, t, ended, t_ended, token, ok, data, route),
    ensures
        route is Unknown,
        t_ended == t,
{
}

/// `m` holds at most one entry for command `c`.
pub open spec fn holds_one<T: AbortableOp>(m: Map<u64, T>, c: (u16, u16)) -> bool {
    forall|t: u64, u: u64|
        #![trigger m.contains_key(t), m.contains_key(u)]
        m.contains_key(t) && m.contains_key(u) && m[t].command() == c && m[u].command() == c ==> t
            == u
}

/// Command `c` has at most one multi-transfer operation.
pub open spec fn one_operation(s: NvmeController, c: (u16, u16)) -> bool {
    let h1 = holds(s.dual_prp_writes@, c);
    let h2 = holds(s.compare_ops@, c);
    let h3 = holds(s.pi_writes@, c);
    let h4 = holds(s.pi_reads@, c);
    let h5 = holds(s.prp_list_ops@, c);
    let h6 = holds(s.sgl_ops@, c);
    let h7 = holds(s.sep_meta_writes@, c);
    let h8 = holds(s.sep_meta_reads@, c);
    &&& h1 ==> !(h2 || h3 || h4 || h5 || h6 || h7 || h8)
    &&& h2 ==> !(h3 || h4 || h5 || h6 || h7 || h8)
    &&& h3 ==> !(h4 || h5 || h6 || h7 || h8)
    &&& h4 ==> !(h5 || h6 || h7 || h8)
    &&& h5 ==> !(h6 || h7 || h8)
    &&& h6 ==> !(h7 || h8)
    &&& h7 ==> !h8
    &&& holds_one(s.dual_prp_writes@, c)
    &&& holds_one(s.compare_ops@, c)
    &&& holds_one(s.pi_writes@, c)
    &&& holds_one(s.pi_reads@, c)
    &&& holds_one(s.prp_list_ops@, c)
    &&& holds_one(s.sgl_ops@, c)
    &&& holds_one(s.sep_meta_writes@, c)
    &&& holds_one(s.sep_meta_reads@, c)
}

/// An aborted command that had one multi-transfer operation leaves none behind.
pub proof fn law_abort_leaves_no_operation(
    before: NvmeController,
    link: Link,
    after: NvmeController,
    link_after: Link,
    c: (u16, u16),
    r: bool,
    acc: Option<(u16, u16)>,
    io: Option<(u16, u16)>,
)
    requires
        aborted(before, link, after, link_after, c, r, acc, io),
        one_operation(before, c),
    ensures
        !holds(after.dual_prp_writes@, c),
        !holds(after.compare_ops@, c),
        !holds(after.pi_writes@, c),
        !holds(after.pi_reads@, c),
        !holds(after.prp_list_ops@, c),
        !holds(after.sgl_ops@, c),
        !holds(after.sep_meta_writes@, c),
        !holds(after.sep_meta_reads@, c),
{
}

} // verus!
