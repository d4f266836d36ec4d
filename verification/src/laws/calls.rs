//! When calls can be made: always, on a controller in order.
use vstd::arithmetic::power2::pow2;
use vstd::prelude::*;

use crate::cmd::{Cqe, Sqe};
use crate::controller::abort;
use crate::controller::ctx::DeviceCtx;
use crate::controller::NvmeController;
use crate::laws;
use crate::laws::doorbells;

verus! {

/// Every queue is in order, every entry of the host's buffers has an address, no chain of
/// looks is longer than allowed, and the counters have room.
pub open spec fn in_order(c: NvmeController) -> bool {
    &&& laws::all_in_order(c.cqs@)
    &&& forall|q: u16| #[trigger] c.sqs@.contains_key(q) ==> doorbells::ring_in_order(c.sqs@[q])
    &&& c.doorbell_shadow_gpa + 8 * 65536 <= u64::MAX
    &&& c.doorbell_event_idx_gpa + 8 * 65536 <= u64::MAX
    &&& forall|t: u64| #[trigger]
        c.pending_shadow_polls@.contains_key(t) ==> c.pending_shadow_polls@[t].iters < 65536
    &&& c.dbbuf_shadow_ahead_count < u64::MAX
    &&& c.stat_num_err_log_entries < u64::MAX
    &&& c.wf()
}

/// Doorbells of any queue can be rung with any value.
pub proof fn law_doorbells_can_be_rung(
    c: &mut NvmeController,
    ctx: &mut DeviceCtx,
    qid: u16,
    value: u32,
)
    requires
        in_order(*old(c)),
    ensures
        call_requires(NvmeController::on_sq_tail_doorbell, (c, ctx, qid, value)),
        call_requires(NvmeController::on_cq_head_doorbell, (c, ctx, qid, value)),
        call_requires(NvmeController::advance_sq_to_tail, (c, ctx, qid, value)),
        call_requires(NvmeController::start_shadow_sq_poll, (c, ctx, qid)),
        call_requires(NvmeController::start_shadow_cq_poll, (c, ctx, qid)),
        call_requires(NvmeController::clear_dbbuf, (c,)),
{
}

/// The end of any transfer can be reported, however it ended and whatever it brought.
pub proof fn law_transfers_can_end(
    c: &mut NvmeController,
    ctx: &mut DeviceCtx,
    token: u64,
    ok: bool,
    data: Vec<u8>,
)
    requires
        in_order(*old(c)),
    ensures
        call_requires(NvmeController::on_dma_complete, (c, ctx, token, ok, data)),
        call_requires(NvmeController::nvme_admin_complete_dma, (c, ctx, token, ok, data)),
        call_requires(NvmeController::on_fetched_sqes, (c, token, data)),
{
}

/// Any command of any queue can be dispatched, and any completion be posted.
pub proof fn law_commands_can_be_dispatched(
    c: &mut NvmeController,
    ctx: &mut DeviceCtx,
    sq_id: u16,
    head: u16,
    sqe: Sqe,
    cq_id: u16,
    cqe: Cqe,
)
    requires
        in_order(*old(c)),
    ensures
        call_requires(NvmeController::dispatch_sqe, (c, ctx, sq_id, head, sqe)),
        call_requires(NvmeController::post_cqe, (c, ctx, cq_id, cqe)),
        call_requires(NvmeController::complete_command, (c, ctx, cq_id, Some(cqe))),
{
}

/// Any command can be aborted, whether it waits or not.
pub proof fn law_commands_can_be_aborted(
    c: &mut NvmeController,
    ctx: &mut DeviceCtx,
    sqid: u16,
    cid: u16,
)
    requires
        in_order(*old(c)),
    ensures
        call_requires(NvmeController::try_abort_inflight, (c, ctx, sqid, cid)),
{
    assert forall|q: u16| #[trigger] abort::abort_may_reach(*old(c), (sqid, cid), q) implies old(c).link(old(ctx)@).postable(q) by {}
}

/// Any event can happen, and time can pass.
pub proof fn law_events_can_happen(
    c: &mut NvmeController,
    ctx: &mut DeviceCtx,
    kind: u8,
    info: u8,
    page: u8,
    conn: u32,
    state: u8,
)
    requires
        in_order(*old(c)),
        kind < 8,
    ensures
        call_requires(NvmeController::fire_aen, (c, ctx, kind, info, page)),
        call_requires(NvmeController::fire_aen_for_conn, (c, ctx, kind, info, page, conn)),
        call_requires(NvmeController::set_ana_state, (c, ctx, state)),
        call_requires(NvmeController::tick, (c, ctx)),
{
    let t = old(ctx)@;
    let s = *old(c);
    let (sqs, thr) = (s.sqs@, s.irq_aggr_threshold);
    laws::events::lemma_event_told(s.events(t), sqs, thr, None, 2, 1, 6);
    laws::events::lemma_event_told(s.after_self_test(t).events, sqs, thr, None, 0, 0, 1);
    laws::events::lemma_event_told(s.after_errors(t).events, sqs, thr, None, 2, 5, 0x81);
    assert(s.tick_fits(t));
}

/// A compare can end whatever the host sent, on a namespace whose blocks have addresses and
/// carry no protection information, while the counters have room.
pub proof fn law_compares_can_end(
    c: &mut NvmeController,
    nsid: u32,
    lba: u64,
    num_blocks: u32,
    prp1: Vec<u8>,
    prp2: Option<Vec<u8>>,
    file: Option<Vec<u8>>,
    cid: u16,
    sq_id: u16,
    sq_head: u16,
    cq_id: u16,
)
    requires
        in_order(*old(c)),
        old(c).stat_host_reads < u64::MAX,
        old(c).stat_lba_read + num_blocks <= u64::MAX,
        old(c).namespaces@.contains_key(nsid) ==> {
            let ns = old(c).namespaces@[nsid];
            &&& ns.pi_type == 0
            &&& ns.lbads < 64
            &&& num_blocks * pow2(ns.lbads as nat) <= usize::MAX
            &&& lba * pow2(ns.lbads as nat) <= u64::MAX
        },
    ensures
        call_requires(
            NvmeController::compare_finalize,
            (c, nsid, lba, num_blocks, prp1, prp2, file, cid, sq_id, sq_head, cq_id),
        ),
{
}

} // verus!
