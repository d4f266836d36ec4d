use memmap2::MmapMut;
use nvme_firmware::controller::ctx::{DeviceCtx, TransportEvent};
use nvme_firmware::controller::setup::BackingFile;
use nvme_firmware::controller::shadow::{poll_key, MAX_SHADOW_POLL_ITERS};
use nvme_firmware::controller::{NvmeController, ShadowPollCtx, MAX_MAX_QUEUE_ENTRIES};
use nvme_firmware::regs::{csts, CompletionQueue, SubmissionQueue, SQE_BYTES};

const SHADOW_GPA: u64 = 0x10_0000;
const EVENTIDX_GPA: u64 = 0x20_0000;
const SQ1_BASE: u64 = 0x2_0000;
const SQ_DEPTH: u32 = 64;

fn mk() -> NvmeController {
    let size = 4 * 1024 * 1024;
    let file = BackingFile {
        path: "ns1.img".to_string(),
        size: size as u64,
        mmap: Some(MmapMut::map_anon(size).unwrap()),
        snapshot: None,
    };
    NvmeController::open(vec![file], 0x1414, 0, &[], 0).ok().unwrap()
}

/// Ready, with submission queue 1 and shadow doorbells.
fn mk_dbbuf() -> NvmeController {
    let mut c = mk();
    c.csts |= csts::RDY;
    c.sqs.insert(
        1,
        SubmissionQueue { base_gpa: SQ1_BASE, size: SQ_DEPTH, head: 0, tail: 0, cq_id: 1 },
    );
    c.doorbell_shadow_gpa = SHADOW_GPA;
    c.doorbell_event_idx_gpa = EVENTIDX_GPA;
    c
}

/// The last value written to `gpa` in four bytes.
fn last_eventidx_write(cap: &DeviceCtx, from: usize, gpa: u64) -> Option<u32> {
    cap.events()[from..].iter().rev().find_map(|e| match e {
        TransportEvent::DmaWrite { gpa: g, data, .. } if *g == gpa && data.len() == 4 => {
            Some(u32::from_le_bytes([data[0], data[1], data[2], data[3]]))
        }
        _ => None,
    })
}

/// The token of the first read of four bytes at `gpa`.
fn first_read_token(cap: &DeviceCtx, from: usize, gpa: u64) -> Option<u64> {
    cap.events()[from..].iter().find_map(|e| match e {
        TransportEvent::DmaRead { gpa: g, token, len } if *g == gpa && *len == 4 => Some(*token),
        _ => None,
    })
}

/// How often four bytes at `gpa` were read.
fn count_shadow_reads(cap: &DeviceCtx, from: usize, gpa: u64) -> usize {
    cap.events()[from..]
        .iter()
        .filter(
            |e| matches!(e, TransportEvent::DmaRead { gpa: g, len, .. } if *g == gpa && *len == 4),
        )
        .count()
}

/// Whether a host that moves its index from `old` to `new` rings the doorbell.
fn need_event(event_idx: u16, new: u16, old: u16) -> bool {
    (new.wrapping_sub(event_idx).wrapping_sub(1)) < (new.wrapping_sub(old))
}

fn latest_shadow_chain_ctx(c: &NvmeController) -> Option<ShadowPollCtx> {
    c.pending_shadow_polls.iter().max_by_key(|(tok, _)| **tok).map(|(_, ctx)| *ctx)
}

#[test]
fn need_event_matches_kernel_formula_examples() {
    assert!(need_event(5, 6, 5));
    assert!(need_event(5, 8, 5));
    assert!(!need_event(5, 7, 6));
    assert!(need_event(65535, 0, 65535));
}

#[test]
fn settled_eventidx_forces_ring_on_any_new_submit() {
    let processed: u16 = 10;
    for delta in 1..SQ_DEPTH as u16 {
        let new = (processed + delta) % SQ_DEPTH as u16;
        assert!(need_event(processed, new, processed));
    }
}

#[test]
fn sq_poll_advances_via_shadow_and_writes_eventidx() {
    let mut c = mk_dbbuf();
    let mut cap = DeviceCtx::with_start_token(0x1000);

    let pre = cap.events().len();
    c.on_sq_tail_doorbell(&mut cap, 1, 0);
    let sq_shadow_gpa = SHADOW_GPA + 8;
    let tok = first_read_token(&cap, pre, sq_shadow_gpa).unwrap();
    let _ = c.on_dma_complete(&mut cap, tok, true, 4u32.to_le_bytes().to_vec());
    assert_eq!(c.dbbuf_shadow_ahead_count, 1);
    let fetched = cap.events()[pre..].iter().any(|e| {
        matches!(e, TransportEvent::DmaRead { gpa, len, .. }
            if *gpa == SQ1_BASE && *len == 4 * SQE_BYTES as u32)
    });
    assert!(fetched);
    assert_eq!(c.sqs.get(&1).unwrap().tail, 4);
    let ei_gpa = EVENTIDX_GPA + 8;
    assert_eq!(last_eventidx_write(&cap, pre, ei_gpa), Some(4));
    let reread_token = {
        let reads: Vec<u64> = cap.events()[pre..]
            .iter()
            .filter_map(|e| match e {
                TransportEvent::DmaRead { gpa, token, len }
                    if *gpa == sq_shadow_gpa && *len == 4 =>
                {
                    Some(*token)
                }
                _ => None,
            })
            .collect();
        assert!(reads.len() >= 2);
        reads[1]
    };

    let pre2 = cap.events().len();
    let _ = c.on_dma_complete(&mut cap, reread_token, true, 4u32.to_le_bytes().to_vec());
    assert_eq!(count_shadow_reads(&cap, pre2, sq_shadow_gpa), 0);
    assert!(!c.shadow_poll_inflight.contains(&poll_key(1, false)));
}

#[test]
fn sq_poll_reread_catches_submit_during_window() {
    let mut c = mk_dbbuf();
    let mut cap = DeviceCtx::with_start_token(0x2000);
    let sq_shadow_gpa = SHADOW_GPA + 8;
    let ei_gpa = EVENTIDX_GPA + 8;

    let pre = cap.events().len();
    c.on_sq_tail_doorbell(&mut cap, 1, 0);
    let tok = first_read_token(&cap, pre, sq_shadow_gpa).unwrap();
    let _ = c.on_dma_complete(&mut cap, tok, true, 4u32.to_le_bytes().to_vec());
    assert_eq!(c.sqs.get(&1).unwrap().tail, 4);
    let reread = cap.events()[pre..]
        .iter()
        .filter_map(|e| match e {
            TransportEvent::DmaRead { gpa, token, len }
                if *gpa == sq_shadow_gpa && *len == 4 =>
            {
                Some(*token)
            }
            _ => None,
        })
        .nth(1)
        .unwrap();

    let pre_catch = cap.events().len();
    let _ = c.on_dma_complete(&mut cap, reread, true, 6u32.to_le_bytes().to_vec());
    assert_eq!(c.sqs.get(&1).unwrap().tail, 6);
    let fetched_4_6 = cap.events()[pre_catch..].iter().any(|e| {
        matches!(e, TransportEvent::DmaRead { gpa, len, .. }
            if *gpa == SQ1_BASE + 4 * SQE_BYTES && *len == 2 * SQE_BYTES as u32)
    });
    assert!(fetched_4_6);
    assert_eq!(last_eventidx_write(&cap, pre_catch, ei_gpa), Some(6));
    assert!(count_shadow_reads(&cap, pre_catch, sq_shadow_gpa) >= 1);
    assert_eq!(c.dbbuf_shadow_ahead_count, 2);
}

#[test]
fn cq_poll_learns_head_and_writes_eventidx() {
    let mut c = mk_dbbuf();
    c.cqs.insert(
        1,
        CompletionQueue {
            base_gpa: 0x3_0000,
            size: SQ_DEPTH,
            tail: 0,
            phase: 1,
            head: 0,
            interrupt_vector: 1,
            interrupt_enabled: true,
            pending_completions: 0,
            last_fire: None,
        },
    );
    let mut cap = DeviceCtx::with_start_token(0x3000);
    let cq_shadow_gpa = SHADOW_GPA + 8 + 4;
    let cq_ei_gpa = EVENTIDX_GPA + 8 + 4;

    let pre = cap.events().len();
    c.on_cq_head_doorbell(&mut cap, 1, 0);
    let tok = first_read_token(&cap, pre, cq_shadow_gpa).unwrap();
    let _ = c.on_dma_complete(&mut cap, tok, true, 7u32.to_le_bytes().to_vec());
    assert_eq!(c.cqs.get(&1).unwrap().head, 7);
    assert_eq!(last_eventidx_write(&cap, pre, cq_ei_gpa), Some(7));
    assert_eq!(count_shadow_reads(&cap, pre, cq_shadow_gpa), 1);
    assert!(!c.shadow_poll_inflight.contains(&poll_key(1, true)));
}

#[test]
fn dbbuf_inactive_uses_plain_mmio_fetch() {
    let mut c = mk();
    c.csts |= csts::RDY;
    c.sqs.insert(
        1,
        SubmissionQueue {
            base_gpa: SQ1_BASE,
            size: SQ_DEPTH,
            head: 0,
            tail: 0,
            cq_id: 1,
        },
    );
    assert!(!c.dbbuf_active());
    let mut cap = DeviceCtx::with_start_token(0x4000);
    let pre = cap.events().len();
    c.on_sq_tail_doorbell(&mut cap, 1, 3);
    let direct_fetch = cap.events()[pre..].iter().any(|e| {
        matches!(e, TransportEvent::DmaRead { gpa, len, .. }
            if *gpa == SQ1_BASE && *len == 3 * SQE_BYTES as u32)
    });
    assert!(direct_fetch);
    assert_eq!(c.sqs.get(&1).unwrap().tail, 3);
    assert_eq!(count_shadow_reads(&cap, pre, SHADOW_GPA + 8), 0);
}

#[test]
fn active_ignores_stale_mmio_value_uses_shadow() {
    let mut c = mk_dbbuf();
    let mut cap = DeviceCtx::with_start_token(0x5000);
    let sq_shadow_gpa = SHADOW_GPA + 8;
    let pre = cap.events().len();
    c.on_sq_tail_doorbell(&mut cap, 1, 2);
    assert_eq!(c.last_mmio_sq_doorbell.get(&1).copied(), Some(2));
    let bad_direct = cap.events()[pre..].iter().any(|e| {
        matches!(e, TransportEvent::DmaRead { gpa, len, .. }
            if *gpa == SQ1_BASE && *len == 2 * SQE_BYTES as u32)
    });
    assert!(!bad_direct);
    assert_eq!(c.sqs.get(&1).unwrap().tail, 0);
    let tok = first_read_token(&cap, pre, sq_shadow_gpa).unwrap();
    let _ = c.on_dma_complete(&mut cap, tok, true, 5u32.to_le_bytes().to_vec());
    assert_eq!(c.sqs.get(&1).unwrap().tail, 5);
}

#[test]
fn inflight_guard_suppresses_duplicate_chain() {
    let mut c = mk_dbbuf();
    let mut cap = DeviceCtx::with_start_token(0x6000);
    let sq_shadow_gpa = SHADOW_GPA + 8;
    let pre = cap.events().len();
    c.on_sq_tail_doorbell(&mut cap, 1, 0);
    c.on_sq_tail_doorbell(&mut cap, 1, 0);
    c.tick(&mut cap);
    assert_eq!(count_shadow_reads(&cap, pre, sq_shadow_gpa), 1);
}

#[test]
fn disable_clears_dbbuf_state() {
    let mut c = mk_dbbuf();
    c.shadow_poll_inflight.insert(poll_key(1, false));
    c.shadow_ring_pending.insert(poll_key(1, false));
    c.last_mmio_sq_doorbell.insert(1, 3);
    c.last_eventidx_sq.insert(1, 3);
    c.pending_shadow_polls.insert(
        99,
        ShadowPollCtx {
            qid: 1,
            is_cq: false,
            iters: 0,
        },
    );
    c.clear_dbbuf();
    assert_eq!(c.doorbell_shadow_gpa, 0);
    assert_eq!(c.doorbell_event_idx_gpa, 0);
    assert!(!c.dbbuf_active());
    assert!(c.shadow_poll_inflight.is_empty());
    assert!(c.shadow_ring_pending.is_empty());
    assert!(c.pending_shadow_polls.is_empty());
    assert!(c.pending_eventidx_writes.is_empty());
    assert!(c.last_mmio_sq_doorbell.is_empty());
    assert!(c.last_eventidx_sq.is_empty());
}

#[test]
fn high1_dropped_ring_during_settle_window_is_recovered() {
    const P: u32 = 4;
    let mut c = mk_dbbuf();
    let mut cap = DeviceCtx::with_start_token(0x7000);
    let sq_shadow_gpa = SHADOW_GPA + 8;
    c.on_sq_tail_doorbell(&mut cap, 1, 0);
    let first_tok = first_read_token(&cap, 0, sq_shadow_gpa).unwrap();
    let _ = c.on_dma_complete(&mut cap, first_tok, true, P.to_le_bytes().to_vec());
    assert_eq!(c.sqs.get(&1).unwrap().tail, P);
    assert!(c.shadow_poll_inflight.contains(&poll_key(1, false)));
    let reread_r = cap.events()[0..]
        .iter()
        .filter_map(|e| match e {
            TransportEvent::DmaRead { gpa, token, len }
                if *gpa == sq_shadow_gpa && *len == 4 =>
            {
                Some(*token)
            }
            _ => None,
        })
        .nth(1)
        .unwrap();
        c.on_sq_tail_doorbell(&mut cap, 1, P);
    assert!(c.shadow_ring_pending.contains(&poll_key(1, false)));

    let pre_settle = cap.events().len();
    let _ = c.on_dma_complete(&mut cap, reread_r, true, P.to_le_bytes().to_vec());
    assert_eq!(count_shadow_reads(&cap, pre_settle, sq_shadow_gpa), 1);
    assert!(!c.shadow_ring_pending.contains(&poll_key(1, false)));
    assert!(c.shadow_poll_inflight.contains(&poll_key(1, false)));
    let reread_r2 = latest_shadow_chain_ctx(&c)
        .map(|_| {
            cap.events()[pre_settle..]
                .iter()
                .find_map(|e| match e {
                    TransportEvent::DmaRead { gpa, token, len }
                        if *gpa == sq_shadow_gpa && *len == 4 =>
                    {
                        Some(*token)
                    }
                    _ => None,
                })
                .unwrap()
        })
        .unwrap();

    let pre_fetch = cap.events().len();
    let _ = c.on_dma_complete(&mut cap, reread_r2, true, (P + 1).to_le_bytes().to_vec());
    assert_eq!(c.sqs.get(&1).unwrap().tail, P + 1);
    let fetched_slot_p = cap.events()[pre_fetch..].iter().any(|e| {
        matches!(e, TransportEvent::DmaRead { gpa, len, .. }
            if *gpa == SQ1_BASE + P as u64 * SQE_BYTES && *len == SQE_BYTES as u32)
    });
    assert!(fetched_slot_p);
}

#[test]
fn high1_cq_dropped_ring_recovered() {
    let mut c = mk_dbbuf();
    c.cqs.insert(
        1,
        CompletionQueue {
            base_gpa: 0x3_0000,
            size: SQ_DEPTH,
            tail: 0,
            phase: 1,
            head: 0,
            interrupt_vector: 1,
            interrupt_enabled: true,
            pending_completions: 0,
            last_fire: None,
        },
    );
    let mut cap = DeviceCtx::with_start_token(0x7800);
    let cq_shadow_gpa = SHADOW_GPA + 8 + 4;
    c.on_cq_head_doorbell(&mut cap, 1, 0);
    let tok = first_read_token(&cap, 0, cq_shadow_gpa).unwrap();
    c.on_cq_head_doorbell(&mut cap, 1, 0);
    assert!(c.shadow_ring_pending.contains(&poll_key(1, true)));
    let pre = cap.events().len();
    let _ = c.on_dma_complete(&mut cap, tok, true, 3u32.to_le_bytes().to_vec());
    assert_eq!(c.cqs.get(&1).unwrap().head, 3);
    assert_eq!(count_shadow_reads(&cap, pre, cq_shadow_gpa), 1);
    assert!(!c.shadow_ring_pending.contains(&poll_key(1, true)));
}

#[test]
fn high2_sustained_progress_never_trips_cfs() {
    let mut c = mk();
    c.csts |= csts::RDY;
    const BIG_DEPTH: u32 = 1024;
    c.sqs.insert(
        1,
        SubmissionQueue {
            base_gpa: SQ1_BASE,
            size: BIG_DEPTH,
            head: 0,
            tail: 0,
            cq_id: 1,
        },
    );
    c.doorbell_shadow_gpa = SHADOW_GPA;
    c.doorbell_event_idx_gpa = EVENTIDX_GPA;
    let mut cap = DeviceCtx::with_start_token(0x8000);
    c.shadow_poll_inflight.insert(poll_key(1, false));
    let mut iters = 0u32;
    for step_tail in 1..BIG_DEPTH {
        c.handle_shadow_sq(&mut cap, 1, step_tail, iters);
        let cx = latest_shadow_chain_ctx(&c).unwrap();
        iters = cx.iters;
        assert_eq!(iters, step_tail);
        assert_eq!(c.csts & csts::CFS, 0);
        c.pending_shadow_polls.clear();
    }

    let mut c2 = mk_dbbuf();
    let mut cap2 = DeviceCtx::with_start_token(0x8400);
    let total_advances_target: u64 = (1u64 << 16) + 5_000;
    let mut advances: u64 = 0;
    while advances < total_advances_target {
        c2.sqs.get_mut(&1).unwrap().tail = 0;
        c2.shadow_poll_inflight.insert(poll_key(1, false));
        let mut it = 0u32;
        for step_tail in 1..=4u32 {
            c2.handle_shadow_sq(&mut cap2, 1, step_tail, it);
            advances += 1;
            let cx = latest_shadow_chain_ctx(&c2).unwrap();
            it = cx.iters;
        }
        c2.handle_shadow_sq(&mut cap2, 1, 4, it);
        c2.pending_shadow_polls.clear();
    }
    assert!(advances > (1 << 16));
    assert_eq!(c2.csts & csts::CFS, 0);
}

#[test]
fn high2_realistic_maxdepth_wrap_settles_never_trips_cfs() {
    let mut c = mk();
    c.csts |= csts::RDY;
    const MAXD: u32 = MAX_MAX_QUEUE_ENTRIES;
    c.sqs.insert(
        1,
        SubmissionQueue {
            base_gpa: SQ1_BASE,
            size: MAXD,
            head: 0,
            tail: 0,
            cq_id: 1,
        },
    );
    c.doorbell_shadow_gpa = SHADOW_GPA;
    c.doorbell_event_idx_gpa = EVENTIDX_GPA;
    let mut cap = DeviceCtx::with_start_token(0xA000);
    c.shadow_poll_inflight.insert(poll_key(1, false));

    const STRIDE: u32 = 4096;
    const STEPS: u32 = 2 * MAXD / STRIDE + 4;
    let mut iters = 0u32;
    let mut prev: u32 = 0;
    for step in 0..STEPS {
        let shadow = (prev + STRIDE) % MAXD;
        c.handle_shadow_sq(&mut cap, 1, shadow, iters);
        assert_eq!(c.csts & csts::CFS, 0);
        let cx = latest_shadow_chain_ctx(&c).unwrap();
        iters = cx.iters;
        assert_eq!(iters, step + 1);
        assert!(iters < MAX_SHADOW_POLL_ITERS);
        prev = shadow;
        c.pending_shadow_polls.clear();
    }
    assert_eq!(c.sqs.get(&1).unwrap().tail, prev);
    c.handle_shadow_sq(&mut cap, 1, prev, iters);
    assert_eq!(c.csts & csts::CFS, 0);
    assert!(!c.shadow_poll_inflight.contains(&poll_key(1, false)));
}

#[test]
fn high2_inrange_oscillating_chain_trips_cfs_at_cap() {
    let mut c = mk_dbbuf();
    let mut cap = DeviceCtx::with_start_token(0xB000);
    c.shadow_poll_inflight.insert(poll_key(1, false));

    const OSC: [u32; 2] = [2, 4];
    let mut iters = 0u32;
    let mut tripped_at: Option<u32> = None;
    let feed_cap: u32 = MAX_SHADOW_POLL_ITERS + 8;
    for i in 0..feed_cap {
        let shadow = OSC[(i as usize) & 1];
        let incoming = iters;
        c.handle_shadow_sq(&mut cap, 1, shadow, incoming);
        if c.csts & csts::CFS != 0 {
            tripped_at = Some(incoming);
            break;
        }
        let cx = latest_shadow_chain_ctx(&c).unwrap();
        iters = cx.iters;
        c.pending_shadow_polls.clear();
    }

    let trip_incoming = tripped_at
        .unwrap();
    assert_eq!(trip_incoming, MAX_SHADOW_POLL_ITERS - 1);
    assert_ne!(c.csts & csts::CFS, 0);
    assert!(!c.shadow_poll_inflight.contains(&poll_key(1, false)));
    assert!(!c.shadow_ring_pending.contains(&poll_key(1, false)));
}

#[test]
fn high2_out_of_range_shadow_trips_cfs_garbage_guard() {
    let mut c = mk_dbbuf();
    let mut cap = DeviceCtx::with_start_token(0x9000);
    c.shadow_poll_inflight.insert(poll_key(1, false));
    let garbage = SQ_DEPTH;
    c.handle_shadow_sq(&mut cap, 1, garbage, 0);
    assert_ne!(c.csts & csts::CFS, 0);
    assert!(!c.shadow_poll_inflight.contains(&poll_key(1, false)));
    assert!(!c.shadow_ring_pending.contains(&poll_key(1, false)));
}

#[test]
fn shadows_without_addresses_matter_only_where_they_are_used() {
    let mut c = mk_dbbuf();
    let mut ctx = DeviceCtx::with_start_token(0);
    c.doorbell_shadow_gpa = u64::MAX;
    c.doorbell_event_idx_gpa = u64::MAX;
    c.start_shadow_sq_poll(&mut ctx, 0);
    assert!(ctx.events().is_empty());
    let key = poll_key(1, false);
    c.shadow_poll_inflight.insert(key);
    c.start_shadow_sq_poll(&mut ctx, 1);
    assert!(c.shadow_ring_pending.contains(&key));
    c.pending_shadow_polls.insert(7, ShadowPollCtx { qid: 1, is_cq: false, iters: 0 });
    let _ = c.on_dma_complete(&mut ctx, 7, false, vec![]);
    assert!(c.shadow_poll_inflight.is_empty() && c.shadow_ring_pending.is_empty());
    c.handle_shadow_sq(&mut ctx, 9, 0, 0);
    c.handle_shadow_cq(&mut ctx, 9, 0);
    assert_eq!(c.csts & csts::CFS, 0);
    c.handle_shadow_sq(&mut ctx, 1, SQ_DEPTH, 0);
    assert_eq!(c.csts & csts::CFS, csts::CFS);
    assert!(ctx.events().is_empty());
}
