use memmap2::MmapMut;
use nvme_firmware::controller::ctx::{DeviceCtx, TransportEvent};
use nvme_firmware::controller::discovery_log::DiscoveryPortal;
use nvme_firmware::controller::setup::BackingFile;
use nvme_firmware::controller::{
    Aer, ErrorLogEntry, NvmeController, ReservationNotification, SanitizeState, SelfTestCompleted,
    SelfTestInProgress,
};
use nvme_firmware::regs::{CompletionQueue, SubmissionQueue};

const SECOND: u64 = 1_000_000_000;

fn make_ctrl() -> NvmeController {
    let file = BackingFile {
        path: "ns.img".to_string(),
        size: 1 << 20,
        mmap: Some(MmapMut::map_anon(1 << 20).unwrap()),
        snapshot: None,
    };
    NvmeController::open(vec![file], 0x1414, 0, &[], 0).ok().unwrap()
}

fn cq(base_gpa: u64, vector: u16, enabled: bool) -> CompletionQueue {
    CompletionQueue {
        base_gpa,
        size: 16,
        tail: 0,
        phase: 1,
        head: 0,
        interrupt_vector: vector,
        interrupt_enabled: enabled,
        pending_completions: 0,
        last_fire: None,
    }
}

fn aer(cid: u16, conn_id: u32) -> Aer {
    Aer { cid, sq_id: 0, cq_id: 0, conn_id }
}

/// Event word and command identifier of each completion written.
fn words(ctx: &mut DeviceCtx) -> Vec<(u32, u16)> {
    let mut r = Vec::new();
    for e in ctx.take_events() {
        if let TransportEvent::DmaWrite { data, .. } = e {
            if data.len() == 16 {
                let dw0 = u32::from_le_bytes(data[0..4].try_into().unwrap());
                r.push((dw0, u16::from_le_bytes(data[12..14].try_into().unwrap())));
            }
        }
    }
    r
}

#[test]
fn aen_queue_fifo_order() {
    let mut c = make_ctrl();
    c.aen_pending.push_back(aer(1, 0));
    c.aen_pending.push_back(aer(2, 0));
    c.aen_pending.push_back(aer(3, 0));
    assert_eq!(c.aen_pending.len(), 3);
    assert_eq!(c.aen_pending.pop_front().unwrap().cid, 1);
    assert_eq!(c.aen_pending.pop_front().unwrap().cid, 2);
    assert_eq!(c.aen_pending.pop_front().unwrap().cid, 3);
    assert!(c.aen_pending.is_empty());
}

#[test]
fn events_complete_requests_in_order() {
    let mut c = make_ctrl();
    let mut ctx = DeviceCtx::with_start_token(0);
    c.nvme_force_install_admin_cq(0x1000, 16);
    c.sqs.insert(0, SubmissionQueue { base_gpa: 0, size: 16, head: 5, tail: 5, cq_id: 0 });
    c.queue_aer(1, 0, 0);
    c.queue_aer(2, 0, 0);
    assert!(c.nvme_has_pending_aen_event());
    assert!(c.fire_aen(&mut ctx, 7, 0x12, 0x34));
    let TransportEvent::DmaWrite { gpa, data, .. } = &ctx.events()[0] else {
        panic!("a completion is written");
    };
    assert_eq!(*gpa, 0x1000);
    assert_eq!(data[0..4], [7, 0x12, 0x34, 0]);
    assert_eq!(data[8..14], [5, 0, 0, 0, 1, 0]);
    assert!(c.nvme_fire_aen(&mut ctx, 2, 3, 0x0c));
    assert_eq!(words(&mut ctx), vec![(0x34_1207, 1), (0x0c_0302, 2)]);
    assert!(!c.nvme_fire_aen(&mut ctx, 2, 3, 0x0c));
    assert!(!c.nvme_has_pending_aen_event());
    assert!(ctx.events().is_empty());
}

#[test]
fn connections_do_not_share_requests() {
    let mut c = make_ctrl();
    let mut ctx = DeviceCtx::with_start_token(0);
    c.nvme_force_install_admin_cq(0x1000, 16);
    for (cid, conn) in [(1, 7), (2, 8), (3, 7), (4, 0)] {
        c.current_dispatch_conn_id = conn;
        c.queue_aer(cid, 0, 0);
    }
    assert_eq!(c.nvme_pending_aer_count(), 4);
    assert_eq!(c.nvme_pending_aer_count_for_conn(7), 2);
    assert!(c.nvme_fire_aen_for_conn(&mut ctx, 0, 0, 1, 8));
    assert!(!c.fire_aen_for_conn(&mut ctx, 0, 0, 1, 8));
    assert!(c.fire_aen_for_conn(&mut ctx, 0, 0, 1, 7));
    assert_eq!(words(&mut ctx), vec![(0x01_0000, 2), (0x01_0000, 1)]);
    assert_eq!(c.nvme_cleanup_conn_aers(7), 1);
    assert_eq!(c.nvme_cleanup_conn_aers(7), 0);
    assert_eq!(c.aen_pending, vec![aer(4, 0)]);
}

#[test]
fn error_log_ring_buffer_64_max_recent_first() {
    let mut c = make_ctrl();
    for i in 0..70u16 {
        c.stat_num_err_log_entries += 1;
        c.push_error_log(1, i, 0x8, (i as u64) * 100, 1);
    }
    assert_eq!(c.error_log.len(), 64);
    assert_eq!(c.error_log.front().unwrap().error_count, 7);
    let mut recent = c.error_log.iter().rev();
    assert_eq!(recent.next().unwrap().cid, 69);
    assert_eq!(recent.next().unwrap().cid, 68);
    assert_eq!(
        c.error_log[63],
        ErrorLogEntry {
            error_count: 70,
            sq_id: 1,
            cid: 69,
            status_field: 8,
            param_loc: 0,
            lba: 6900,
            nsid: 1,
        }
    );
}

#[test]
fn reservation_log_holds_the_last_32() {
    let mut c = make_ctrl();
    for i in 0..40u32 {
        c.push_reservation_notification((i % 3) as u8, i);
    }
    assert_eq!(c.reservation_notification_log.len(), 32);
    assert_eq!(c.reservation_notification_count, 40);
    assert_eq!(
        c.reservation_notification_log[0],
        ReservationNotification { log_page_count: 9, log_page_type: 2, nsid: 8 }
    );
    assert_eq!(c.reservation_notification_log[31].nsid, 39);
}

#[test]
fn ana_state_change_triggers_aen() {
    let mut c = make_ctrl();
    c.cqs.insert(0, cq(0x1000, 0, false));
    c.aen_pending.push_back(aer(0x42, 0));
    assert_eq!(c.ana_state, 0x01);
    let initial_change = c.ana_change_count;
    let mut ctx = DeviceCtx::with_start_token(0);
    assert!(c.set_ana_state(&mut ctx, 0x02));
    assert!(!c.set_ana_state(&mut ctx, 0x02));
    assert!(!c.set_ana_state(&mut ctx, 0x05));
    assert!(!c.set_ana_state(&mut ctx, 0x00));
    assert_eq!(c.ana_state, 0x02);
    assert_eq!(c.ana_change_count, initial_change + 1);
    assert_eq!(words(&mut ctx), vec![(0x0c_0302, 0x42)]);
}

#[test]
fn self_test_runs_its_time() {
    let mut c = make_ctrl();
    c.cqs.insert(0, cq(0x1000, 0, false));
    c.aen_pending.push_back(aer(9, 0));
    let mut ctx = DeviceCtx::with_start_token(0);
    c.self_test_in_progress = Some(SelfTestInProgress {
        started_at: 7200 * SECOND,
        stc: 2,
        total_seconds: 60,
        percent_complete: 0,
    });
    ctx.set_now(7220 * SECOND + 1);
    c.tick(&mut ctx);
    assert_eq!(c.self_test_in_progress.unwrap().percent_complete, 33);
    assert!(ctx.events().is_empty());
    ctx.set_now(7260 * SECOND - 1);
    c.tick(&mut ctx);
    assert_eq!(c.self_test_in_progress.unwrap().percent_complete, 98);
    ctx.set_now(7260 * SECOND);
    c.tick(&mut ctx);
    assert_eq!(c.self_test_in_progress, None);
    assert_eq!(
        c.self_test_last,
        Some(SelfTestCompleted { stc: 2, result: 0, completed_at_poh: 2 })
    );
    assert_eq!(words(&mut ctx), vec![(0x06_0102, 9)]);
    c.tick(&mut ctx);
    assert!(ctx.events().is_empty());
}

#[test]
fn sanitize_runs_its_time() {
    let mut c = make_ctrl();
    c.cqs.insert(0, cq(0x1000, 0, false));
    c.aen_pending.push_back(aer(9, 0));
    let mut ctx = DeviceCtx::with_start_token(0);
    c.sanitize =
        Some(SanitizeState { started_at: 0, sanact: 2, total_seconds: 3, percent_complete: 0 });
    c.sanitize_last_status = 2;
    ctx.set_now(SECOND);
    c.tick(&mut ctx);
    assert_eq!(c.sanitize.unwrap().percent_complete, 21845);
    assert_eq!(c.sanitize_last_status, 2);
    ctx.set_now(3 * SECOND);
    c.tick(&mut ctx);
    assert_eq!((c.sanitize, c.sanitize_last_status), (None, 1));
    assert_eq!(words(&mut ctx), vec![(0x81_0502, 9)]);
}

#[test]
fn errors_are_told_once() {
    let mut c = make_ctrl();
    c.cqs.insert(0, cq(0x1000, 0, false));
    c.aen_pending.push_back(aer(9, 0));
    c.aen_pending.push_back(aer(10, 0));
    let mut ctx = DeviceCtx::with_start_token(0);
    c.stat_num_err_log_entries = 3;
    c.tick(&mut ctx);
    c.tick(&mut ctx);
    assert_eq!(c.aen_last_err_count, 3);
    assert_eq!(words(&mut ctx), vec![(0x01_0000, 9)]);
    assert_eq!(c.nvme_pending_aer_count(), 1);
}

#[test]
fn held_back_interrupts_are_raised_in_time() {
    let mut c = make_ctrl();
    let mut ctx = DeviceCtx::with_start_token(0);
    for id in [3u16, 1] {
        let mut q = cq(0x1000, 10 + id, true);
        q.pending_completions = 2;
        q.last_fire = Some(1000);
        c.cqs.insert(id, q);
    }
    c.cqs.insert(2, cq(0x2000, 12, true));
    let mut masked = cq(0x3000, 14, false);
    masked.pending_completions = 1;
    masked.last_fire = Some(0);
    c.cqs.insert(4, masked);
    ctx.set_now(1_000_000_000);
    c.tick(&mut ctx);
    assert!(ctx.events().is_empty());
    c.irq_aggr_time = 2;
    ctx.set_now(200_999);
    c.tick(&mut ctx);
    assert!(ctx.events().is_empty());
    ctx.set_now(201_000);
    c.tick(&mut ctx);
    assert_eq!(
        ctx.take_events(),
        vec![
            TransportEvent::FireInterrupt { msix_index: 11 },
            TransportEvent::FireInterrupt { msix_index: 13 },
        ]
    );
    let q = c.cqs.get(&3).unwrap();
    assert_eq!((q.pending_completions, q.last_fire), (0, Some(201_000)));
    c.tick(&mut ctx);
    assert!(ctx.events().is_empty());
}

#[test]
fn tick_looks_at_the_shadow_doorbells() {
    let mut c = make_ctrl();
    let mut ctx = DeviceCtx::with_start_token(0);
    c.nvme_force_install_io_queue(2, 0x1000, 16);
    c.nvme_force_install_io_queue(1, 0x2000, 16);
    c.tick(&mut ctx);
    assert!(ctx.events().is_empty());
    c.doorbell_shadow_gpa = 0x8000;
    c.doorbell_event_idx_gpa = 0x9000;
    c.tick(&mut ctx);
    let read = |token: u64, gpa: u64| TransportEvent::DmaRead { token, gpa, len: 4 };
    assert_eq!(
        ctx.take_events(),
        vec![read(0, 0x8008), read(1, 0x8010), read(2, 0x800c), read(3, 0x8014)]
    );
    c.tick(&mut ctx);
    assert!(ctx.events().is_empty());
    assert_eq!(c.shadow_ring_pending.len(), 4);
}

#[test]
fn discovery_portals() {
    let mut c = make_ctrl();
    assert!(!c.nvme_is_discovery_mode());
    let gen = c.nvme_discovery_gen_ctr();
    let p = DiscoveryPortal {
        traddr: "10.0.0.1".to_string(),
        trsvcid: "4420".to_string(),
        subnqn: "nqn.test".to_string(),
    };
    c.nvme_set_discovery_target(vec![p]);
    assert!(c.nvme_is_discovery_mode());
    assert_eq!(c.nvme_discovery_portals().len(), 1);
    assert_eq!(c.nvme_discovery_portals()[0].trsvcid, "4420");
    assert_eq!(c.nvme_discovery_gen_ctr(), gen + 1);
    c.nvme_set_discovery_target(vec![]);
    assert!(!c.nvme_is_discovery_mode());
}
