//! Aborting.
use vstd::prelude::*;

use crate::cmd::Sqe;
use crate::controller::abort;
use crate::controller::ctx::DeviceCtx;
use crate::controller::inflight::{
    AbortableOp, CompareAccum, PendingIo, PiReadAccum, PiWriteAccum, PrpListOp, SepMetaReadAccum,
    SepMetaWriteAccum, SglOp, WriteAccum,
};
use crate::controller::NvmeController;
use crate::laws;
use crate::laws::dispatch;

verus! {

/// Something that waits for command `cid` of queue `sq_id`, and where its completion goes.
#[verifier::ext_equal]
pub struct Waits {
    pub sq_id: u16,
    pub cid: u16,
    pub cq_id: u16,
    pub sq_head: u16,
}

/// What the `dual_prp_writes` table of `c` holds.
pub open spec fn in_dual_prp_writes(c: NvmeController) -> Map<u64, Waits> {
    c.dual_prp_writes@.map_values(
        |e: WriteAccum| Waits { sq_id: e.sq_id, cid: e.cid, cq_id: e.cq_id, sq_head: e.sq_head },
    )
}

/// What the `compare_ops` table of `c` holds.
pub open spec fn in_compare_ops(c: NvmeController) -> Map<u64, Waits> {
    c.compare_ops@.map_values(
        |e: CompareAccum| Waits { sq_id: e.sq_id, cid: e.cid, cq_id: e.cq_id, sq_head: e.sq_head },
    )
}

/// What the `pi_writes` table of `c` holds.
pub open spec fn in_pi_writes(c: NvmeController) -> Map<u64, Waits> {
    c.pi_writes@.map_values(
        |e: PiWriteAccum| Waits { sq_id: e.sq_id, cid: e.cid, cq_id: e.cq_id, sq_head: e.sq_head },
    )
}

/// What the `pi_reads` table of `c` holds.
pub open spec fn in_pi_reads(c: NvmeController) -> Map<u64, Waits> {
    c.pi_reads@.map_values(
        |e: PiReadAccum| Waits { sq_id: e.sq_id, cid: e.cid, cq_id: e.cq_id, sq_head: e.sq_head },
    )
}

/// What the `prp_list_ops` table of `c` holds.
pub open spec fn in_prp_list_ops(c: NvmeController) -> Map<u64, Waits> {
    c.prp_list_ops@.map_values(
        |e: PrpListOp| Waits { sq_id: e.sq_id, cid: e.cid, cq_id: e.cq_id, sq_head: e.sq_head },
    )
}

/// What the `sgl_ops` table of `c` holds.
pub open spec fn in_sgl_ops(c: NvmeController) -> Map<u64, Waits> {
    c.sgl_ops@.map_values(
        |e: SglOp| Waits { sq_id: e.sq_id, cid: e.cid, cq_id: e.cq_id, sq_head: e.sq_head },
    )
}

/// What the `sep_meta_writes` table of `c` holds.
pub open spec fn in_sep_meta_writes(c: NvmeController) -> Map<u64, Waits> {
    c.sep_meta_writes@.map_values(
        |e: SepMetaWriteAccum| Waits { sq_id: e.sq_id, cid: e.cid, cq_id: e.cq_id, sq_head: e.sq_head },
    )
}

/// What the `sep_meta_reads` table of `c` holds.
pub open spec fn in_sep_meta_reads(c: NvmeController) -> Map<u64, Waits> {
    c.sep_meta_reads@.map_values(
        |e: SepMetaReadAccum| Waits { sq_id: e.sq_id, cid: e.cid, cq_id: e.cq_id, sq_head: e.sq_head },
    )
}

/// What the `pending_ios` table of `c` holds.
pub open spec fn in_pending_ios(c: NvmeController) -> Map<u64, Waits> {
    c.pending_ios@.map_values(
        |e: PendingIo| Waits { sq_id: e.sq_id, cid: e.cid, cq_id: e.cq_id, sq_head: e.sq_head },
    )
}

/// `m` holds something for a command that completes to `cq_id` with `sq_head`.
pub open spec fn waits_in(m: Map<u64, Waits>, w: Waits) -> bool {
    exists|t: u64| #[trigger] m.contains_key(t) && m[t] == w
}

/// A multi-transfer operation of `w` waits.
pub open spec fn operation_waits(c: NvmeController, w: Waits) -> bool {
    ||| waits_in(in_dual_prp_writes(c), w)
    ||| waits_in(in_compare_ops(c), w)
    ||| waits_in(in_pi_writes(c), w)
    ||| waits_in(in_pi_reads(c), w)
    ||| waits_in(in_prp_list_ops(c), w)
    ||| waits_in(in_sgl_ops(c), w)
    ||| waits_in(in_sep_meta_writes(c), w)
    ||| waits_in(in_sep_meta_reads(c), w)
}

/// A transfer of `w` is in flight.
pub open spec fn transfer_waits(c: NvmeController, w: Waits) -> bool {
    waits_in(in_pending_ios(c), w)
}

/// `w` is the first command of a fused pair that waits on a queue which is still there.
pub open spec fn first_waits(c: NvmeController, w: Waits) -> bool {
    &&& c.pending_fused@.contains_key(w.sq_id)
    &&& laws::cid_of(c.pending_fused@[w.sq_id].0) == w.cid
    &&& c.sqs@.contains_key(w.sq_id)
    &&& w.cq_id == c.sqs@[w.sq_id].cq_id
    &&& w.sq_head == c.pending_fused@[w.sq_id].1
}

/// No entry of `before` that is of another command is gone or changed in `after`, and none
/// is new.
pub open spec fn others_kept(before: Map<u64, Waits>, after: Map<u64, Waits>, sq_id: u16, cid: u16) -> bool {
    &&& forall|t: u64| #[trigger] after.contains_key(t) ==> before.contains_key(t) && after[t]
        == before[t]
    &&& forall|t: u64| #[trigger]
        before.contains_key(t) && !(before[t].sq_id == sq_id && before[t].cid == cid)
            ==> after.contains_key(t)
}

proof fn lemma_scan<T: AbortableOp>(
    here: bool,
    before: Map<u64, T>,
    after: Map<u64, T>,
    b: Map<u64, Waits>,
    a: Map<u64, Waits>,
    sqid: u16,
    cid: u16,
    r: Option<(u16, u16)>,
)
    requires
        abort::scanned_if(here, before, after, (sqid, cid), r),
        shows(before, b),
        shows(after, a),
    ensures
        others_kept(b, a, sqid, cid),
        here && r is Some ==> waits_in(
            b,
            Waits { sq_id: sqid, cid, cq_id: (r->0).0, sq_head: (r->0).1 },
        ),
{
    if here {
        match r {
            None => {},
            Some(target) => {
                let t = choose|t: u64| #[trigger]
                    before.contains_key(t) && before[t].command() == (sqid, cid)
                        && before[t].target() == target && after == before.remove(t);
                assert(b.contains_key(t));
                assert forall|u: u64| #[trigger] b.contains_key(u) && !(b[u].sq_id == sqid
                    && b[u].cid == cid) implies a.contains_key(u) by {
                    assert(before.contains_key(u));
                    assert(after.contains_key(u));
                }
                assert forall|u: u64| #[trigger] a.contains_key(u) implies b.contains_key(u) && a[u]
                    == b[u] by {
                    assert(after.contains_key(u));
                    assert(before.contains_key(u));
                }
            },
        }
    } else {
        assert forall|u: u64| #[trigger] a.contains_key(u) implies b.contains_key(u) && a[u]
            == b[u] by {
            assert(after.contains_key(u));
        }
        assert forall|u: u64| #[trigger] b.contains_key(u) implies a.contains_key(u) by {
            assert(before.contains_key(u));
        }
    }
}

/// `w` is what table `m` holds.
spec fn shows<T: AbortableOp>(m: Map<u64, T>, w: Map<u64, Waits>) -> bool {
    &&& forall|t: u64| #![trigger w.contains_key(t)] w.contains_key(t) <==> m.contains_key(t)
    &&& forall|t: u64| #![trigger m.contains_key(t)] w.contains_key(t) <==> m.contains_key(t)
    &&& forall|t: u64| #[trigger]
        m.contains_key(t) ==> m[t].command() == (w[t].sq_id, w[t].cid) && m[t].target() == (
            w[t].cq_id,
            w[t].sq_head,
        )
}

proof fn lemma_holds<T: AbortableOp>(m: Map<u64, T>, w: Map<u64, Waits>, sqid: u16, cid: u16)
    requires
        shows(m, w),
    ensures
        abort::holds(m, (sqid, cid)) ==> exists|cq_id: u16, sq_head: u16| #[trigger]
            waits_in(w, Waits { sq_id: sqid, cid, cq_id, sq_head }),
        forall|x: Waits|
            #[trigger] waits_in(w, x) && x.sq_id == sqid && x.cid == cid ==> abort::holds(
                m,
                (sqid, cid),
            ),
{
    if abort::holds(m, (sqid, cid)) {
        let t = choose|t: u64| #[trigger] m.contains_key(t) && m[t].command() == (sqid, cid);
        assert(w.contains_key(t));
        assert(waits_in(
            w,
            Waits { sq_id: sqid, cid, cq_id: w[t].cq_id, sq_head: w[t].sq_head },
        ));
    }
    assert forall|x: Waits| #[trigger] waits_in(w, x) && x.sq_id == sqid && x.cid == cid implies abort::holds(
        m,
        (sqid, cid),
    ) by {
        let t = choose|t: u64| #[trigger] w.contains_key(t) && w[t] == x;
        assert(m.contains_key(t));
    }
}

/// The tables of `c` are what the views say.
proof fn lemma_shown(c: NvmeController)
    ensures
        shows(c.dual_prp_writes@, in_dual_prp_writes(c)),
        shows(c.compare_ops@, in_compare_ops(c)),
        shows(c.pi_writes@, in_pi_writes(c)),
        shows(c.pi_reads@, in_pi_reads(c)),
        shows(c.prp_list_ops@, in_prp_list_ops(c)),
        shows(c.sgl_ops@, in_sgl_ops(c)),
        shows(c.sep_meta_writes@, in_sep_meta_writes(c)),
        shows(c.sep_meta_reads@, in_sep_meta_reads(c)),
        shows(c.pending_ios@, in_pending_ios(c)),
{
}

/// What was found, and where.
proof fn lemma_found(c: NvmeController, sqid: u16, cid: u16)
    ensures
        no_operation(c, sqid, cid) <==> !({
            ||| abort::holds(c.dual_prp_writes@, (sqid, cid))
            ||| abort::holds(c.compare_ops@, (sqid, cid))
            ||| abort::holds(c.pi_writes@, (sqid, cid))
            ||| abort::holds(c.pi_reads@, (sqid, cid))
            ||| abort::holds(c.prp_list_ops@, (sqid, cid))
            ||| abort::holds(c.sgl_ops@, (sqid, cid))
            ||| abort::holds(c.sep_meta_writes@, (sqid, cid))
            ||| abort::holds(c.sep_meta_reads@, (sqid, cid))
        }),
        no_transfer(c, sqid, cid) <==> !abort::holds(c.pending_ios@, (sqid, cid)),
        !no_operation(c, sqid, cid) ==> exists|cq_id: u16, sq_head: u16| #[trigger]
            operation_waits(c, Waits { sq_id: sqid, cid, cq_id, sq_head }),
        !no_transfer(c, sqid, cid) ==> exists|cq_id: u16, sq_head: u16| #[trigger]
            transfer_waits(c, Waits { sq_id: sqid, cid, cq_id, sq_head }),
{
    lemma_shown(c);
    lemma_holds(c.dual_prp_writes@, in_dual_prp_writes(c), sqid, cid);
    lemma_holds(c.compare_ops@, in_compare_ops(c), sqid, cid);
    lemma_holds(c.pi_writes@, in_pi_writes(c), sqid, cid);
    lemma_holds(c.pi_reads@, in_pi_reads(c), sqid, cid);
    lemma_holds(c.prp_list_ops@, in_prp_list_ops(c), sqid, cid);
    lemma_holds(c.sgl_ops@, in_sgl_ops(c), sqid, cid);
    lemma_holds(c.sep_meta_writes@, in_sep_meta_writes(c), sqid, cid);
    lemma_holds(c.sep_meta_reads@, in_sep_meta_reads(c), sqid, cid);
    lemma_holds(c.pending_ios@, in_pending_ios(c), sqid, cid);
    let held = |cq_id: u16, sq_head: u16| Waits { sq_id: sqid, cid, cq_id, sq_head };
    if abort::holds(c.dual_prp_writes@, (sqid, cid)) {
        let (q, h) = choose|cq_id: u16, sq_head: u16| #[trigger]
            waits_in(in_dual_prp_writes(c), Waits { sq_id: sqid, cid, cq_id, sq_head });
        assert(operation_waits(c, held(q, h)));
    }
    if abort::holds(c.compare_ops@, (sqid, cid)) {
        let (q, h) = choose|cq_id: u16, sq_head: u16| #[trigger]
            waits_in(in_compare_ops(c), Waits { sq_id: sqid, cid, cq_id, sq_head });
        assert(operation_waits(c, held(q, h)));
    }
    if abort::holds(c.pi_writes@, (sqid, cid)) {
        let (q, h) = choose|cq_id: u16, sq_head: u16| #[trigger]
            waits_in(in_pi_writes(c), Waits { sq_id: sqid, cid, cq_id, sq_head });
        assert(operation_waits(c, held(q, h)));
    }
    if abort::holds(c.pi_reads@, (sqid, cid)) {
        let (q, h) = choose|cq_id: u16, sq_head: u16| #[trigger]
            waits_in(in_pi_reads(c), Waits { sq_id: sqid, cid, cq_id, sq_head });
        assert(operation_waits(c, held(q, h)));
    }
    if abort::holds(c.prp_list_ops@, (sqid, cid)) {
        let (q, h) = choose|cq_id: u16, sq_head: u16| #[trigger]
            waits_in(in_prp_list_ops(c), Waits { sq_id: sqid, cid, cq_id, sq_head });
        assert(operation_waits(c, held(q, h)));
    }
    if abort::holds(c.sgl_ops@, (sqid, cid)) {
        let (q, h) = choose|cq_id: u16, sq_head: u16| #[trigger]
            waits_in(in_sgl_ops(c), Waits { sq_id: sqid, cid, cq_id, sq_head });
        assert(operation_waits(c, held(q, h)));
    }
    if abort::holds(c.sep_meta_writes@, (sqid, cid)) {
        let (q, h) = choose|cq_id: u16, sq_head: u16| #[trigger]
            waits_in(in_sep_meta_writes(c), Waits { sq_id: sqid, cid, cq_id, sq_head });
        assert(operation_waits(c, held(q, h)));
    }
    if abort::holds(c.sep_meta_reads@, (sqid, cid)) {
        let (q, h) = choose|cq_id: u16, sq_head: u16| #[trigger]
            waits_in(in_sep_meta_reads(c), Waits { sq_id: sqid, cid, cq_id, sq_head });
        assert(operation_waits(c, held(q, h)));
    }
    if abort::holds(c.pending_ios@, (sqid, cid)) {
        let (q, h) = choose|cq_id: u16, sq_head: u16| #[trigger]
            waits_in(in_pending_ios(c), Waits { sq_id: sqid, cid, cq_id, sq_head });
        assert(transfer_waits(c, held(q, h)));
    }
}

/// An abort finds the command where a multi-transfer operation or a transfer of it waits, or
/// where it is the first of a fused pair; the completion goes where that says, an operation
/// before a transfer, and a transfer before a pair. It is one completion, of that command,
/// as aborted, and with the tag that its queue has then. Where nothing waits nothing is
/// posted.
pub proof fn law_abort_answers_once(
    c: &mut NvmeController,
    ctx: &mut DeviceCtx,
    sqid: u16,
    cid: u16,
    r: bool,
)
    requires
        call_ensures(NvmeController::try_abort_inflight, (c, ctx, sqid, cid), r),
        laws::all_in_order(old(c).cqs@),
    ensures
        r <==> exists|w: Waits| is_target(*old(c), w, sqid, cid),
        r ==> exists|w: Waits| #[trigger] is_target(*old(c), w, sqid, cid) && laws::answered(
            old(c).cqs@,
            old(ctx)@,
            final(c).cqs@,
            final(ctx)@,
            old(c).irq_aggr_threshold,
            w.cq_id,
            laws::plain_answer(old(c).cqs@, w.cq_id, sqid, w.sq_head, cid as int, 7),
        ),
        !r ==> final(c).cqs@ == old(c).cqs@ && final(ctx)@ == old(ctx)@,
{
    let (acc, io) = choose|acc: Option<(u16, u16)>, io: Option<(u16, u16)>| #[trigger]
        abort::aborted(
            *old(c),
            old(c).link(old(ctx)@),
            *final(c),
            final(c).link(final(ctx)@),
            (sqid, cid),
            r,
            acc,
            io,
        );
    let h = (sqid, cid);
    let h1 = abort::holds(old(c).dual_prp_writes@, h);
    let h2 = h1 || abort::holds(old(c).compare_ops@, h);
    let h3 = h2 || abort::holds(old(c).pi_writes@, h);
    let h4 = h3 || abort::holds(old(c).pi_reads@, h);
    let h5 = h4 || abort::holds(old(c).prp_list_ops@, h);
    let h6 = h5 || abort::holds(old(c).sgl_ops@, h);
    let h7 = h6 || abort::holds(old(c).sep_meta_writes@, h);
    let h8 = h7 || abort::holds(old(c).sep_meta_reads@, h);
    lemma_shown(*old(c));
    lemma_shown(*final(c));
    lemma_scan(
        h1,
        old(c).dual_prp_writes@,
        final(c).dual_prp_writes@,
        in_dual_prp_writes(*old(c)),
        in_dual_prp_writes(*final(c)),
        sqid,
        cid,
        acc,
    );
    lemma_scan(
        h2 && !h1,
        old(c).compare_ops@,
        final(c).compare_ops@,
        in_compare_ops(*old(c)),
        in_compare_ops(*final(c)),
        sqid,
        cid,
        acc,
    );
    lemma_scan(
        h3 && !h2,
        old(c).pi_writes@,
        final(c).pi_writes@,
        in_pi_writes(*old(c)),
        in_pi_writes(*final(c)),
        sqid,
        cid,
        acc,
    );
    lemma_scan(
        h4 && !h3,
        old(c).pi_reads@,
        final(c).pi_reads@,
        in_pi_reads(*old(c)),
        in_pi_reads(*final(c)),
        sqid,
        cid,
        acc,
    );
    lemma_scan(
        h5 && !h4,
        old(c).prp_list_ops@,
        final(c).prp_list_ops@,
        in_prp_list_ops(*old(c)),
        in_prp_list_ops(*final(c)),
        sqid,
        cid,
        acc,
    );
    lemma_scan(
        h6 && !h5,
        old(c).sgl_ops@,
        final(c).sgl_ops@,
        in_sgl_ops(*old(c)),
        in_sgl_ops(*final(c)),
        sqid,
        cid,
        acc,
    );
    lemma_scan(
        h7 && !h6,
        old(c).sep_meta_writes@,
        final(c).sep_meta_writes@,
        in_sep_meta_writes(*old(c)),
        in_sep_meta_writes(*final(c)),
        sqid,
        cid,
        acc,
    );
    lemma_scan(
        h8 && !h7,
        old(c).sep_meta_reads@,
        final(c).sep_meta_reads@,
        in_sep_meta_reads(*old(c)),
        in_sep_meta_reads(*final(c)),
        sqid,
        cid,
        acc,
    );
    lemma_found(*old(c), sqid, cid);
    laws::lemma_fields(old(c).pending_fused@[sqid].0);
    let target = abort::abort_target_of(*old(c), h, acc, io);
    match target {
        None => {},
        Some((cq_id, sq_head)) => {
            let w = Waits { sq_id: sqid, cid, cq_id, sq_head };
            laws::lemma_plain_posted(
                old(c).link(old(ctx)@),
                old(c).irq_aggr_threshold,
                cq_id,
                cid,
                sqid,
                sq_head,
                7,
            );
            if acc is Some {
                assert(operation_waits(*old(c), w));
            } else if io is Some {
                let t = choose|t: u64| #[trigger]
                    old(c).pending_ios@.contains_key(t) && old(c).pending_ios@[t].command() == h
                        && old(c).pending_ios@[t].target() == io->0;
                assert(in_pending_ios(*old(c)).contains_key(t));
                assert(transfer_waits(*old(c), w));
            }
            assert(is_target(*old(c), w, sqid, cid));
        },
    }
    assert forall|w: Waits| is_target(*old(c), w, sqid, cid) implies r by {
        if operation_waits(*old(c), w) {
            assert(!no_operation(*old(c), sqid, cid));
        }
        if transfer_waits(*old(c), w) {
            assert(!no_transfer(*old(c), sqid, cid));
        }
    }
}

/// The completion of command `cid` of queue `sqid` goes where `w` says.
pub open spec fn is_target(c: NvmeController, w: Waits, sqid: u16, cid: u16) -> bool {
    &&& w.sq_id == sqid
    &&& w.cid == cid
    &&& {
        ||| operation_waits(c, w)
        ||| transfer_waits(c, w) && no_operation(c, sqid, cid)
        ||| first_waits(c, w) && no_operation(c, sqid, cid) && no_transfer(c, sqid, cid)
    }
}

/// No multi-transfer operation of the command waits.
pub open spec fn no_operation(c: NvmeController, sqid: u16, cid: u16) -> bool {
    forall|w: Waits| w.sq_id == sqid && w.cid == cid ==> !#[trigger] operation_waits(c, w)
}

/// No transfer of the command is in flight.
pub open spec fn no_transfer(c: NvmeController, sqid: u16, cid: u16) -> bool {
    forall|w: Waits| w.sq_id == sqid && w.cid == cid ==> !#[trigger] transfer_waits(c, w)
}

/// After an abort no transfer of the command is in flight; every operation and every
/// transfer of any other command waits as before, and so does the first command of any
/// other pair.
pub proof fn law_abort_spares_other_commands(
    c: &mut NvmeController,
    ctx: &mut DeviceCtx,
    sqid: u16,
    cid: u16,
    r: bool,
    q: u16,
)
    requires
        call_ensures(NvmeController::try_abort_inflight, (c, ctx, sqid, cid), r),
    ensures
        no_transfer(*final(c), sqid, cid),
        others_kept(in_dual_prp_writes(*old(c)), in_dual_prp_writes(*final(c)), sqid, cid),
        others_kept(in_compare_ops(*old(c)), in_compare_ops(*final(c)), sqid, cid),
        others_kept(in_pi_writes(*old(c)), in_pi_writes(*final(c)), sqid, cid),
        others_kept(in_pi_reads(*old(c)), in_pi_reads(*final(c)), sqid, cid),
        others_kept(in_prp_list_ops(*old(c)), in_prp_list_ops(*final(c)), sqid, cid),
        others_kept(in_sgl_ops(*old(c)), in_sgl_ops(*final(c)), sqid, cid),
        others_kept(in_sep_meta_writes(*old(c)), in_sep_meta_writes(*final(c)), sqid, cid),
        others_kept(in_sep_meta_reads(*old(c)), in_sep_meta_reads(*final(c)), sqid, cid),
        others_kept(in_pending_ios(*old(c)), in_pending_ios(*final(c)), sqid, cid),
        ({
            let f = old(c).pending_fused@;
            f.contains_key(q) && !(q == sqid && laws::cid_of(f[q].0) == cid)
                ==> final(c).pending_fused@.contains_key(q) && final(c).pending_fused@[q] == f[q]
        }),
        final(c).pending_fused@.contains_key(q) ==> old(c).pending_fused@.contains_key(q),
        *final(c) == (NvmeController {
            dual_prp_writes: final(c).dual_prp_writes,
            compare_ops: final(c).compare_ops,
            pi_writes: final(c).pi_writes,
            pi_reads: final(c).pi_reads,
            prp_list_ops: final(c).prp_list_ops,
            sgl_ops: final(c).sgl_ops,
            sep_meta_writes: final(c).sep_meta_writes,
            sep_meta_reads: final(c).sep_meta_reads,
            pending_ios: final(c).pending_ios,
            pending_fused: final(c).pending_fused,
            cqs: final(c).cqs,
            ..*old(c)
        }),
{
    let (acc, io) = choose|acc: Option<(u16, u16)>, io: Option<(u16, u16)>| #[trigger]
        abort::aborted(
            *old(c),
            old(c).link(old(ctx)@),
            *final(c),
            final(c).link(final(ctx)@),
            (sqid, cid),
            r,
            acc,
            io,
        );
    let h = (sqid, cid);
    let h1 = abort::holds(old(c).dual_prp_writes@, h);
    let h2 = h1 || abort::holds(old(c).compare_ops@, h);
    let h3 = h2 || abort::holds(old(c).pi_writes@, h);
    let h4 = h3 || abort::holds(old(c).pi_reads@, h);
    let h5 = h4 || abort::holds(old(c).prp_list_ops@, h);
    let h6 = h5 || abort::holds(old(c).sgl_ops@, h);
    let h7 = h6 || abort::holds(old(c).sep_meta_writes@, h);
    let h8 = h7 || abort::holds(old(c).sep_meta_reads@, h);
    lemma_shown(*old(c));
    lemma_shown(*final(c));
    lemma_scan(
        h1,
        old(c).dual_prp_writes@,
        final(c).dual_prp_writes@,
        in_dual_prp_writes(*old(c)),
        in_dual_prp_writes(*final(c)),
        sqid,
        cid,
        acc,
    );
    lemma_scan(
        h2 && !h1,
        old(c).compare_ops@,
        final(c).compare_ops@,
        in_compare_ops(*old(c)),
        in_compare_ops(*final(c)),
        sqid,
        cid,
        acc,
    );
    lemma_scan(
        h3 && !h2,
        old(c).pi_writes@,
        final(c).pi_writes@,
        in_pi_writes(*old(c)),
        in_pi_writes(*final(c)),
        sqid,
        cid,
        acc,
    );
    lemma_scan(
        h4 && !h3,
        old(c).pi_reads@,
        final(c).pi_reads@,
        in_pi_reads(*old(c)),
        in_pi_reads(*final(c)),
        sqid,
        cid,
        acc,
    );
    lemma_scan(
        h5 && !h4,
        old(c).prp_list_ops@,
        final(c).prp_list_ops@,
        in_prp_list_ops(*old(c)),
        in_prp_list_ops(*final(c)),
        sqid,
        cid,
        acc,
    );
    lemma_scan(
        h6 && !h5,
        old(c).sgl_ops@,
        final(c).sgl_ops@,
        in_sgl_ops(*old(c)),
        in_sgl_ops(*final(c)),
        sqid,
        cid,
        acc,
    );
    lemma_scan(
        h7 && !h6,
        old(c).sep_meta_writes@,
        final(c).sep_meta_writes@,
        in_sep_meta_writes(*old(c)),
        in_sep_meta_writes(*final(c)),
        sqid,
        cid,
        acc,
    );
    lemma_scan(
        h8 && !h7,
        old(c).sep_meta_reads@,
        final(c).sep_meta_reads@,
        in_sep_meta_reads(*old(c)),
        in_sep_meta_reads(*final(c)),
        sqid,
        cid,
        acc,
    );
    lemma_found(*final(c), sqid, cid);
    laws::lemma_fields(old(c).pending_fused@[sqid].0);
    let (b, a) = (in_pending_ios(*old(c)), in_pending_ios(*final(c)));
    assert forall|t: u64| #[trigger] a.contains_key(t) implies b.contains_key(t) && a[t] == b[t] by {
        assert(final(c).pending_ios@.contains_key(t));
        assert(old(c).pending_ios@.contains_key(t));
    }
    assert forall|t: u64| #[trigger] b.contains_key(t) && !(b[t].sq_id == sqid && b[t].cid == cid) implies a.contains_key(
        t,
    ) by {
        assert(old(c).pending_ios@.contains_key(t));
        assert(final(c).pending_ios@.contains_key(t));
    }
}

/// The first command of a pair is taken from its queue only where nothing else of it waits:
/// the pair is what is looked at last, and no other pair is touched.
pub proof fn law_abort_looks_at_the_pair_last(
    c: &mut NvmeController,
    ctx: &mut DeviceCtx,
    sqid: u16,
    cid: u16,
    r: bool,
)
    requires
        call_ensures(NvmeController::try_abort_inflight, (c, ctx, sqid, cid), r),
    ensures
        ({
            let f = old(c).pending_fused@;
            let first = f.contains_key(sqid) && laws::cid_of(f[sqid].0) == cid;
            let else_waits = !no_operation(*old(c), sqid, cid) || !no_transfer(*old(c), sqid, cid);
            &&& first && !else_waits ==> final(c).pending_fused@ == f.remove(sqid)
            &&& !first || else_waits ==> final(c).pending_fused@ == f
        }),
{
    lemma_found(*old(c), sqid, cid);
    laws::lemma_fields(old(c).pending_fused@[sqid].0);
    let (acc, io) = choose|acc: Option<(u16, u16)>, io: Option<(u16, u16)>| #[trigger]
        abort::aborted(
            *old(c),
            old(c).link(old(ctx)@),
            *final(c),
            final(c).link(final(ctx)@),
            (sqid, cid),
            r,
            acc,
            io,
        );
}

/// An abort of a command that has one operation leaves no operation of it behind.
pub proof fn law_abort_drops_the_operation(
    c: &mut NvmeController,
    ctx: &mut DeviceCtx,
    sqid: u16,
    cid: u16,
    r: bool,
)
    requires
        call_ensures(NvmeController::try_abort_inflight, (c, ctx, sqid, cid), r),
        abort::one_operation(*old(c), (sqid, cid)),
    ensures
        no_operation(*final(c), sqid, cid),
{
    let (acc, io) = choose|acc: Option<(u16, u16)>, io: Option<(u16, u16)>| #[trigger]
        abort::aborted(
            *old(c),
            old(c).link(old(ctx)@),
            *final(c),
            final(c).link(final(ctx)@),
            (sqid, cid),
            r,
            acc,
            io,
        );
    abort::law_abort_leaves_no_operation(
        *old(c),
        old(c).link(old(ctx)@),
        *final(c),
        final(c).link(final(ctx)@),
        (sqid, cid),
        r,
        acc,
        io,
    );
    lemma_found(*final(c), sqid, cid);
}

/// An abort of a command that has no operation and is not both in flight and the first of a
/// pair leaves nothing of it: a second abort finds nothing.
pub proof fn law_second_abort_finds_nothing(
    c: &mut NvmeController,
    ctx: &mut DeviceCtx,
    sqid: u16,
    cid: u16,
    r: bool,
    again: &mut NvmeController,
    ctx_again: &mut DeviceCtx,
    r_again: bool,
)
    requires
        call_ensures(NvmeController::try_abort_inflight, (c, ctx, sqid, cid), r),
        call_ensures(NvmeController::try_abort_inflight, (again, ctx_again, sqid, cid), r_again),
        *again == *final(c),
        ctx_again@ == final(ctx)@,
        no_operation(*old(c), sqid, cid),
        !(old(c).pending_fused@.contains_key(sqid) && laws::cid_of(old(c).pending_fused@[sqid].0)
            == cid) || no_transfer(*old(c), sqid, cid),
    ensures
        !r_again,
        final(ctx_again)@ == final(ctx)@,
        final(again).cqs@ == final(c).cqs@,
{
    law_abort_spares_other_commands(c, ctx, sqid, cid, r, sqid);
    lemma_found(*old(c), sqid, cid);
    lemma_found(*again, sqid, cid);
    laws::lemma_fields(old(c).pending_fused@[sqid].0);
    let (acc, io) = choose|acc: Option<(u16, u16)>, io: Option<(u16, u16)>| #[trigger]
        abort::aborted(
            *old(c),
            old(c).link(old(ctx)@),
            *final(c),
            final(c).link(final(ctx)@),
            (sqid, cid),
            r,
            acc,
            io,
        );
    let (acc2, io2) = choose|acc: Option<(u16, u16)>, io: Option<(u16, u16)>| #[trigger]
        abort::aborted(
            *again,
            again.link(ctx_again@),
            *final(again),
            final(again).link(final(ctx_again)@),
            (sqid, cid),
            r_again,
            acc,
            io,
        );
}

/// The compare of a pair that started can be aborted, under the identifier that the host gave
/// it; its transfer is then nobody's.
pub proof fn law_started_compare_can_be_aborted(
    c: &mut NvmeController,
    ctx: &mut DeviceCtx,
    sq_id: u16,
    compare_sqe: Sqe,
    compare_sq_head: u16,
    write_sqe: Sqe,
    write_sq_head: u16,
    cq_id: u16,
    then: &mut NvmeController,
    ctx_then: &mut DeviceCtx,
    r: bool,
)
    requires
        call_ensures(
            NvmeController::dispatch_fused_compare_write,
            (c, ctx, sq_id, compare_sqe, compare_sq_head, write_sqe, write_sq_head, cq_id),
            (),
        ),
        laws::all_in_order(old(c).cqs@),
        dispatch::is_served(old(c).namespaces@, compare_sqe.nsid),
        !old(c).namespaces@[compare_sqe.nsid].not_ready,
        *old(then) == *final(c),
        call_ensures(
            NvmeController::try_abort_inflight,
            (then, ctx_then, sq_id, laws::cid_of(compare_sqe) as u16),
            r,
        ),
    ensures
        r,
        !final(then).pending_ios@.contains_key(old(ctx)@.next_token),
{
    let cid = laws::cid_of(compare_sqe) as u16;
    let token = old(ctx)@.next_token;
    laws::lemma_fields(compare_sqe);
    dispatch::law_pair_starts_with_its_compare(
        c,
        ctx,
        sq_id,
        compare_sqe,
        compare_sq_head,
        write_sqe,
        write_sq_head,
        cq_id,
    );
    assert(final(c).cqs@ == old(c).cqs@);
    law_abort_answers_once(then, ctx_then, sq_id, cid, r);
    law_abort_spares_other_commands(then, ctx_then, sq_id, cid, r, 0);
    let io = old(then).pending_ios@[token];
    let w = Waits { sq_id: io.sq_id, cid: io.cid, cq_id: io.cq_id, sq_head: io.sq_head };
    assert(in_pending_ios(*old(then)).contains_key(token));
    assert(in_pending_ios(*old(then))[token] == w);
    assert(transfer_waits(*old(then), w));
    if no_operation(*old(then), sq_id, cid) {
        assert(is_target(*old(then), w, sq_id, cid));
    } else {
        lemma_found(*old(then), sq_id, cid);
        let (q, h) = choose|q: u16, h: u16| #[trigger]
            operation_waits(*old(then), Waits { sq_id, cid, cq_id: q, sq_head: h });
        assert(is_target(
            *old(then),
            Waits { sq_id, cid, cq_id: q, sq_head: h },
            sq_id,
            cid,
        ));
    }
    if final(then).pending_ios@.contains_key(token) {
        assert(in_pending_ios(*final(then)).contains_key(token));
        assert(in_pending_ios(*final(then))[token] == w);
        assert(transfer_waits(*final(then), w));
    }
}

} // verus!
