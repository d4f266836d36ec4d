use memmap2::MmapMut;
use nvme_firmware::cmd::sc;
use nvme_firmware::cmd::{Cqe, Sqe};
use nvme_firmware::controller::ctx::{DeviceCtx, TransportEvent};
use nvme_firmware::controller::device::{BarKind, BarLayout, DmaRoute, PropertyAccess};
use nvme_firmware::controller::dispatch::{CommandRequest, Route};
use nvme_firmware::controller::inflight::PendingOp;
use nvme_firmware::controller::setup::BackingFile;
use nvme_firmware::controller::{AdminCqInstallError, FetchCtx, NvmeController};
use nvme_firmware::regs::{csts, CompletionQueue, SubmissionQueue};

fn make_ctrl() -> NvmeController {
    let file = BackingFile {
        path: "ns.img".to_string(),
        size: 1 << 20,
        mmap: Some(MmapMut::map_anon(1 << 20).unwrap()),
        snapshot: None,
    };
    NvmeController::open(vec![file], 0x1414, 0x1af4, &[], 0).ok().unwrap()
}

fn cq(base_gpa: u64, size: u32, vector: u16, enabled: bool) -> CompletionQueue {
    CompletionQueue {
        base_gpa,
        size,
        tail: 0,
        phase: 1,
        head: 0,
        interrupt_vector: vector,
        interrupt_enabled: enabled,
        pending_completions: 0,
        last_fire: None,
    }
}

/// A controller with I/O queue pair 1, of 8 entries; the submission queue is at 0x8000.
fn with_queues() -> NvmeController {
    let mut c = make_ctrl();
    c.cqs.insert(1, cq(0x1_0000, 8, 5, true));
    c.sqs.insert(1, SubmissionQueue { base_gpa: 0x8000, size: 8, head: 0, tail: 0, cq_id: 1 });
    c
}

fn sqe(opc: u8, fuse: u8, cid: u16, nsid: u32, slba: u32, nlb: u32) -> Sqe {
    let mut s = Sqe::read_from_bytes(&[0u8; 64]).unwrap();
    s.cdw0 = (opc as u32) | ((fuse as u32) << 8) | ((cid as u32) << 16);
    s.nsid = nsid;
    s.cdw10 = slba;
    s.cdw12 = nlb - 1;
    s.prp1 = 0x4000;
    s
}

/// Identifier, head pointer, phase tag and status of each completion written.
fn cqes(ctx: &mut DeviceCtx) -> Vec<(u16, u16, u8, u16)> {
    let mut r = Vec::new();
    for e in ctx.take_events() {
        if let TransportEvent::DmaWrite { data, .. } = e {
            let dw2 = u32::from_le_bytes(data[8..12].try_into().unwrap());
            let dw3 = u32::from_le_bytes(data[12..16].try_into().unwrap());
            r.push((
                (dw3 & 0xffff) as u16,
                (dw2 & 0xffff) as u16,
                ((dw3 >> 16) & 1) as u8,
                (((dw3 >> 17) & 0xff) | (((dw3 >> 25) & 7) << 8)) as u16,
            ));
        }
    }
    r
}

#[test]
fn fused_on_admin_sq_rejected_by_design() {
    let mut s = Sqe::read_from_bytes(&[0u8; 64]).unwrap();
    s.cdw0 = 0x0042_0100;
    assert_eq!(s.fuse(), 1);
    let mut c = make_ctrl();
    let mut ctx = DeviceCtx::with_start_token(0);
    c.nvme_force_install_admin_cq(0x1000, 4);
    assert_eq!(c.dispatch_sqe(&mut ctx, 0, 3, s), Route::Done);
    assert_eq!(cqes(&mut ctx), vec![(0x42, 3, 1, sc::INVALID_FIELD)]);
}

#[test]
fn plain_commands_are_routed() {
    let mut c = with_queues();
    let mut ctx = DeviceCtx::with_start_token(0);
    let s = sqe(2, 0, 0x42, 1, 0, 1);
    let io = CommandRequest { sq_id: 1, sqe: s, cid: 0x42, sq_head: 3, cq_id: 1 };
    assert_eq!(c.dispatch_sqe(&mut ctx, 1, 3, s), Route::Io(io));
    let admin = CommandRequest { sq_id: 0, sqe: s, cid: 0x42, sq_head: 3, cq_id: 0 };
    assert_eq!(c.dispatch_sqe(&mut ctx, 0, 3, s), Route::Admin(admin));
    assert!(ctx.events().is_empty());
    c.complete_command(&mut ctx, 1, None);
    assert!(ctx.events().is_empty());
    c.complete_command(&mut ctx, 1, Some(Cqe::success(0x42, 1, 3, 1)));
    assert_eq!(cqes(&mut ctx), vec![(0x42, 3, 1, 0)]);
}

#[test]
fn fused_pair_compares_first() {
    let mut c = with_queues();
    let mut ctx = DeviceCtx::with_start_token(50);
    let (first, second) = (sqe(5, 1, 1, 1, 8, 2), sqe(1, 2, 2, 1, 8, 2));
    assert_eq!(c.dispatch_sqe(&mut ctx, 1, 1, first), Route::Done);
    assert!(ctx.events().is_empty());
    assert_eq!(c.dispatch_sqe(&mut ctx, 1, 2, second), Route::Done);
    assert_eq!(
        ctx.events(),
        &vec![TransportEvent::DmaRead { token: 50, gpa: 0x4000, len: 1024 }]
    );
    assert!(c.pending_fused.is_empty());
    let DmaRoute::Command(p) = c.on_dma_complete(&mut ctx, 50, true, vec![0; 1024]) else {
        panic!("the compare goes on");
    };
    assert_eq!((p.cid, p.sq_head, p.cq_id, p.nsid), (1, 1, 1, 1));
    let PendingOp::NvmCompareSinglePrpFused { lba, num_blocks, write_sqe, write_sq_head, .. } = p.op
    else {
        panic!("the write waits for the compare");
    };
    assert_eq!((lba, num_blocks, write_sq_head, write_sqe), (8, 2, 2, second));
}

#[test]
fn fused_pairs_that_do_not_fit() {
    let refused = |first: Sqe, second: Sqe, change: fn(&mut NvmeController)| {
        let mut c = with_queues();
        change(&mut c);
        let mut ctx = DeviceCtx::with_start_token(0);
        c.dispatch_sqe(&mut ctx, 1, 1, first);
        c.dispatch_sqe(&mut ctx, 1, 2, second);
        assert!(c.pending_fused.is_empty() && c.pending_ios.is_empty());
        let r = cqes(&mut ctx);
        assert_eq!((r.len(), r[0].0, r[1].0), (2, 1, 2));
        assert_eq!((r[0].1, r[1].1), (1, 2));
        assert_eq!(r[0].3, r[1].3);
        r[0].3
    };
    let keep: fn(&mut NvmeController) = |_| {};
    let first = sqe(5, 1, 1, 1, 8, 1);
    let second = sqe(1, 2, 2, 1, 8, 1);
    assert_eq!(refused(first, sqe(1, 2, 2, 1, 9, 1), keep), sc::INVALID_FIELD);
    assert_eq!(refused(first, sqe(1, 2, 2, 1, 8, 2), keep), sc::INVALID_FIELD);
    assert_eq!(refused(first, sqe(1, 2, 2, 2, 8, 1), keep), sc::INVALID_FIELD);
    assert_eq!(refused(first, sqe(2, 2, 2, 1, 8, 1), keep), sc::INVALID_FIELD);
    assert_eq!(refused(sqe(5, 1, 1, 1, 8, 9), sqe(1, 2, 2, 1, 8, 9), keep), sc::INVALID_FIELD);
    assert_eq!(
        refused(first, second, |c| c.namespaces.get_mut(&1).unwrap().pi_type = 1),
        sc::INVALID_FIELD
    );
    assert_eq!(
        refused(first, second, |c| c.namespaces.get_mut(&1).unwrap().not_ready = true),
        sc::NAMESPACE_NOT_READY
    );
    assert_eq!(
        refused(sqe(5, 1, 1, 7, 8, 1), sqe(1, 2, 2, 7, 8, 1), keep),
        sc::INVALID_NAMESPACE
    );
}

#[test]
fn refused_pairs_follow_the_phase() {
    let pair = (sqe(5, 1, 1, 7, 8, 1), sqe(1, 2, 2, 7, 8, 1));
    let mut c = with_queues();
    c.cqs.get_mut(&1).unwrap().tail = 7;
    let mut ctx = DeviceCtx::with_start_token(0);
    c.dispatch_sqe(&mut ctx, 1, 1, pair.0);
    c.dispatch_sqe(&mut ctx, 1, 2, pair.1);
    let gpas: Vec<u64> = ctx
        .events()
        .iter()
        .filter_map(|e| match e {
            TransportEvent::DmaWrite { gpa, .. } => Some(*gpa),
            _ => None,
        })
        .collect();
    assert_eq!(gpas, vec![0x1_0070, 0x1_0000]);
    let n = sc::INVALID_NAMESPACE;
    assert_eq!(cqes(&mut ctx), vec![(1, 1, 1, n), (2, 2, 0, n)]);
    c.cqs.get_mut(&1).unwrap().tail = 7;
    c.dispatch_fused_compare_write(&mut ctx, 1, pair.0, 3, pair.1, 4, 1);
    assert_eq!(cqes(&mut ctx), vec![(1, 3, 0, n), (2, 4, 1, n)]);
    assert!(c.pending_ios.is_empty());
}

#[test]
fn a_plain_command_behind_a_first_one_fails_with_it() {
    let mut c = with_queues();
    let mut ctx = DeviceCtx::with_start_token(0);
    let f = sc::INVALID_FIELD;
    c.dispatch_sqe(&mut ctx, 1, 1, sqe(5, 1, 1, 1, 8, 1));
    assert_eq!(c.dispatch_sqe(&mut ctx, 1, 2, sqe(2, 0, 2, 1, 8, 1)), Route::Done);
    assert_eq!(cqes(&mut ctx), vec![(1, 1, 1, f), (2, 2, 1, f)]);
    assert!(c.pending_fused.is_empty() && c.pending_ios.is_empty());
    assert!(matches!(c.dispatch_sqe(&mut ctx, 1, 3, sqe(2, 0, 3, 1, 8, 1)), Route::Io(_)));
    assert!(ctx.events().is_empty());
}

#[test]
fn stranded_first_commands_fail() {
    let mut c = with_queues();
    let mut ctx = DeviceCtx::with_start_token(0);
    c.dispatch_sqe(&mut ctx, 1, 3, sqe(5, 1, 3, 1, 8, 1));
    c.dispatch_sqe(&mut ctx, 1, 4, sqe(5, 1, 4, 1, 8, 1));
    assert_eq!(cqes(&mut ctx), vec![(3, 3, 1, sc::INVALID_FIELD)]);
    assert_eq!(c.pending_fused[&1].0.cid(), 4);
    c.dispatch_sqe(&mut ctx, 2, 1, sqe(1, 2, 5, 1, 8, 1));
    assert!(ctx.events().is_empty());
    assert_eq!(c.pending_fused.len(), 1);
}

#[test]
fn malformed_fused_commands_fail() {
    let mut c = with_queues();
    let mut ctx = DeviceCtx::with_start_token(0);
    c.dispatch_sqe(&mut ctx, 1, 1, sqe(1, 2, 1, 1, 8, 1));
    c.dispatch_sqe(&mut ctx, 1, 2, sqe(5, 3, 2, 1, 8, 1));
    c.dispatch_sqe(&mut ctx, 1, 3, sqe(1, 1, 3, 1, 8, 1));
    let f = sc::INVALID_FIELD;
    assert_eq!(cqes(&mut ctx), vec![(1, 1, 1, f), (2, 2, 1, f), (3, 3, 1, f)]);
    assert!(c.pending_fused.is_empty());
}

#[test]
fn malformed_fused_commands_take_a_waiting_one_along() {
    let f = sc::INVALID_FIELD;
    for malformed in [sqe(5, 3, 2, 1, 8, 1), sqe(1, 1, 2, 1, 8, 1)] {
        let mut c = with_queues();
        let mut ctx = DeviceCtx::with_start_token(0);
        c.dispatch_sqe(&mut ctx, 1, 1, sqe(5, 1, 1, 1, 8, 1));
        assert_eq!(c.dispatch_sqe(&mut ctx, 1, 2, malformed), Route::Done);
        assert_eq!(cqes(&mut ctx), vec![(1, 1, 1, f), (2, 2, 1, f)]);
        c.dispatch_sqe(&mut ctx, 1, 3, sqe(1, 2, 3, 1, 8, 1));
        assert_eq!(cqes(&mut ctx), vec![(3, 3, 1, f)]);
        assert!(c.pending_fused.is_empty() && c.pending_ios.is_empty());
    }
}

#[test]
fn completions_go_round() {
    let mut c = make_ctrl();
    let mut ctx = DeviceCtx::with_start_token(7);
    c.cqs.insert(1, cq(0x1_0000, 3, 5, true));
    for i in 0..4u16 {
        let phase = c.cqs.get(&1).unwrap().phase;
        c.post_cqe(&mut ctx, 1, Cqe::success(i, 1, 0, phase));
    }
    let q = *c.cqs.get(&1).unwrap();
    assert_eq!((q.tail, q.phase, q.pending_completions, q.last_fire), (1, 0, 0, Some(0)));
    let mut gpas = Vec::new();
    let mut vectors = Vec::new();
    for e in ctx.events() {
        match e {
            TransportEvent::DmaWrite { gpa, .. } => gpas.push(*gpa),
            TransportEvent::FireInterrupt { msix_index } => vectors.push(*msix_index),
            TransportEvent::DmaRead { .. } => panic!("nothing is read"),
        }
    }
    assert_eq!(gpas, vec![0x1_0000, 0x1_0010, 0x1_0020, 0x1_0000]);
    assert_eq!(vectors, vec![5, 5, 5, 5]);
    assert_eq!(cqes(&mut ctx).iter().map(|x| x.2).collect::<Vec<u8>>(), vec![1, 1, 1, 0]);
    c.post_cqe(&mut ctx, 9, Cqe::success(0, 1, 0, 1));
    assert!(ctx.events().is_empty());
}

#[test]
fn aggregation_holds_interrupts_back() {
    let mut c = with_queues();
    c.irq_aggr_threshold = 2;
    c.irq_aggr_time = 100;
    let mut ctx = DeviceCtx::with_start_token(0);
    for i in 1..=3u64 {
        ctx.set_now(i * 10);
        c.post_cqe(&mut ctx, 1, Cqe::success(0, 1, 0, 1));
        let q = c.cqs.get(&1).unwrap();
        let expected = if i < 3 { (i as u32, Some(10)) } else { (0, Some(30)) };
        assert_eq!((q.pending_completions, q.last_fire), expected);
    }
    assert_eq!(ctx.events().len(), 4);
    assert_eq!(ctx.events()[3], TransportEvent::FireInterrupt { msix_index: 5 });
    let mut quiet = make_ctrl();
    quiet.cqs.insert(1, cq(0, 4, 5, false));
    quiet.post_cqe(&mut ctx, 1, Cqe::success(0, 1, 0, 1));
    assert_eq!(quiet.cqs.get(&1).unwrap().pending_completions, 1);
    assert_eq!(quiet.cqs.get(&1).unwrap().last_fire, None);
}

#[test]
fn tail_moves_fetch_the_new_entries() {
    let mut c = with_queues();
    let mut ctx = DeviceCtx::with_start_token(0);
    assert!(c.advance_sq_to_tail(&mut ctx, 1, 6));
    assert!(c.advance_sq_to_tail(&mut ctx, 1, 6));
    assert!(c.advance_sq_to_tail(&mut ctx, 1, 2));
    let read = |token: u64, gpa: u64, len: u32| TransportEvent::DmaRead { token, gpa, len };
    assert_eq!(
        ctx.take_events(),
        vec![
            read(0, 0x8000, 6 * 64),
            read(1, 0x8000 + 6 * 64, 2 * 64),
            read(2, 0x8000, 2 * 64),
        ]
    );
    assert_eq!(c.pending_fetches[&1], FetchCtx { sq_id: 1, count: 2, start_slot: 6 });
    assert_eq!(c.pending_fetches[&2], FetchCtx { sq_id: 1, count: 2, start_slot: 0 });
    assert!(c.advance_sq_to_tail(&mut ctx, 1, 0));
    assert_eq!(ctx.take_events(), vec![read(3, 0x8000 + 2 * 64, 6 * 64)]);
    assert!(!c.advance_sq_to_tail(&mut ctx, 2, 1));
    assert_eq!(c.csts & csts::CFS, 0);
    assert!(!c.advance_sq_to_tail(&mut ctx, 1, 8));
    assert_eq!(c.csts & csts::CFS, csts::CFS);
    assert_eq!(c.sqs.get(&1).unwrap().tail, 0);
}

#[test]
fn each_fetched_command_reports_its_own_head() {
    let mut c = with_queues();
    let mut ctx = DeviceCtx::with_start_token(0);
    c.sqs.get_mut(&1).unwrap().tail = 6;
    assert!(c.advance_sq_to_tail(&mut ctx, 1, 0));
    let mut data = vec![0u8; 128];
    data[2] = 0x11;
    data[64 + 2] = 0x22;
    assert!(matches!(c.on_dma_complete(&mut ctx, 0, true, data), DmaRoute::Done));
    let got: Vec<(u16, u16, u16)> =
        c.sqe_inbox.iter().map(|(q, head, s)| (*q, *head, s.cid())).collect();
    assert_eq!(got, vec![(1, 7, 0x11), (1, 0, 0x22)]);
    assert_eq!(c.sqs.get(&1).unwrap().head, 0);
    assert!(c.pending_fetches.is_empty());
    assert_eq!(c.csts & csts::CFS, 0);
}

#[test]
fn torn_and_failed_fetches_are_fatal() {
    let mut c = with_queues();
    let mut ctx = DeviceCtx::with_start_token(0);
    c.on_fetched_sqes(99, vec![1, 2, 3]);
    assert_eq!(c.csts, 0);
    assert!(c.advance_sq_to_tail(&mut ctx, 1, 1));
    c.on_fetched_sqes(0, vec![0; 63]);
    assert_eq!(c.csts, csts::CFS);
    assert!(c.sqe_inbox.is_empty() && c.pending_fetches.is_empty());
    c.csts = 0;
    assert!(c.advance_sq_to_tail(&mut ctx, 1, 2));
    assert!(matches!(
        c.nvme_admin_complete_dma(&mut ctx, 1, false, vec![0; 64]),
        DmaRoute::Done
    ));
    assert_eq!(c.csts, csts::CFS);
}

#[test]
fn doorbell_addresses() {
    assert_eq!(NvmeController::parse_doorbell(0xfff), None);
    assert_eq!(NvmeController::parse_doorbell(0x1000), Some((true, 0)));
    assert_eq!(NvmeController::parse_doorbell(0x1004), Some((false, 0)));
    assert_eq!(NvmeController::parse_doorbell(0x100b), Some((true, 1)));
    assert_eq!(NvmeController::parse_doorbell(0x1ffc), Some((false, 511)));
    assert_eq!(NvmeController::parse_doorbell(0x2000), None);
}

#[test]
fn admin_queue_is_installed_once() {
    let mut c = make_ctrl();
    let mut ctx = DeviceCtx::with_start_token(0);
    assert!(!c.nvme_has_admin_cq());
    assert_eq!(c.nvme_install_admin_cq(0x1000, 16), Ok(()));
    c.nvme_post_cqe(&mut ctx, Cqe::success(1, 0, 0, 1));
    assert_eq!(c.nvme_install_admin_cq(0x1000, 16), Ok(()));
    assert_eq!(c.cqs.get(&0).unwrap().tail, 1);
    assert_eq!(
        c.nvme_install_admin_cq(0x2000, 8),
        Err(AdminCqInstallError::MismatchedParams {
            old_base_gpa: 0x1000,
            old_size: 16,
            new_base_gpa: 0x2000,
            new_size: 8,
        })
    );
    assert_eq!(c.cqs.get(&0).unwrap().tail, 1);
    c.nvme_force_install_admin_cq(0x2000, 8);
    assert_eq!(*c.cqs.get(&0).unwrap(), cq(0x2000, 8, 0, false));
    assert!(c.nvme_has_admin_cq());
}

#[test]
fn queues_are_listed_and_removed() {
    let mut c = make_ctrl();
    c.nvme_force_install_admin_cq(0x1000, 4);
    for qid in [256u16, 3, 1] {
        c.nvme_force_install_io_queue(qid, 0x1000 * qid as u64, 4);
    }
    c.nvme_force_install_io_queue(257, 0, 4);
    assert_eq!(c.nvme_list_io_sqs(), vec![1, 3, 256]);
    assert_eq!(c.nvme_list_io_cqs(), vec![1, 3, 256]);
    assert!(c.nvme_delete_io_sq(3));
    assert!(!c.nvme_delete_io_sq(3));
    assert!(!c.nvme_delete_io_sq(0));
    assert!(!c.nvme_delete_io_cq(0));
    assert!(c.nvme_delete_io_cq(256));
    assert_eq!(c.nvme_list_io_sqs(), vec![1, 256]);
    assert_eq!(c.nvme_list_io_cqs(), vec![1, 3]);
    assert!(c.nvme_has_admin_cq());
}

#[test]
fn configuration_space() {
    let mut c = make_ctrl();
    c.msix_count = 33;
    let d = c.describe();
    assert_eq!((d.vendor_id, d.device_id, d.class_code, d.revision), (0x1414, 0xc0de, 0x010802, 1));
    assert_eq!((d.subsystem_vendor, d.subsystem_device, d.msix_count), (0x1af4, 0, 33));
    assert_eq!(
        d.bars,
        vec![BarLayout { index: 0, size: 0x4000, kind: BarKind::Mmio32, prefetchable: false }]
    );
    assert_eq!(d.capabilities.len(), 1);
    assert_eq!(d.capabilities[0].cap_id, 0x11);
    assert_eq!(d.capabilities[0].raw, vec![32, 0, 0, 0x20, 0, 0, 0, 0x30, 0, 0]);
    assert!(d.cfg_write_side_effect_offsets.is_empty());
    c.msix_count = 0;
    assert!(c.describe().capabilities.is_empty());
}

#[test]
fn property_commands_reach_five_registers() {
    let c = make_ctrl();
    for ofst in 0..0x60u32 {
        let valid = [0x00, 0x08, 0x14, 0x1c, 0x20].contains(&ofst);
        assert_eq!(NvmeController::is_valid_property_offset(ofst), valid);
        assert_eq!(c.nvme_property_get(ofst, 4).is_some(), valid);
        assert_eq!(c.nvme_property_set(ofst, 8, 1).is_some(), valid);
    }
    assert_eq!(
        c.nvme_property_set(0x14, 4, 0x460001),
        Some((PropertyAccess { offset: 0x14, size: 4 }, 0x460001))
    );
    assert_eq!(c.nvme_property_get(0x14, 2), None);
    assert_eq!(c.nvme_property_set(0x14, 16, 0), None);
}

#[test]
fn nested_dispatches_restore_the_connection() {
    let mut c = make_ctrl();
    let s = sqe(0x0c, 0, 1, 0, 0, 1);
    let outer = c.nvme_admin_dispatch_with_conn(s, 1, 0, 7);
    c.queue_aer(1, 0, 0);
    let inner = c.nvme_admin_dispatch(s, 2, 0);
    c.queue_aer(2, 0, 0);
    c.nvme_admin_dispatch_done(inner);
    c.queue_aer(3, 0, 0);
    c.nvme_admin_dispatch_done(outer);
    assert_eq!(c.current_dispatch_conn_id, 0);
    assert_eq!(c.aen_pending.iter().map(|a| a.conn_id).collect::<Vec<u32>>(), vec![7, 0, 7]);
    assert_eq!(
        outer.request,
        CommandRequest { sq_id: 0, sqe: s, cid: 1, sq_head: 0, cq_id: 0 }
    );
    assert_eq!(
        c.nvme_io_dispatch(3, s, 9, 4),
        CommandRequest { sq_id: 3, sqe: s, cid: 9, sq_head: 0, cq_id: 4 }
    );
}

#[test]
fn commands_come_in_the_order_of_their_slots() {
    let mut c = with_queues();
    let mut ctx = DeviceCtx::with_start_token(0);
    c.sqs.get_mut(&1).unwrap().tail = 6;
    assert!(c.advance_sq_to_tail(&mut ctx, 1, 2));
    let mut memory = vec![0u8; 8 * 64];
    for slot in 0..8usize {
        memory[slot * 64 + 2] = 0x10 + slot as u8;
    }
    for e in ctx.take_events() {
        let TransportEvent::DmaRead { token, gpa, len } = e else {
            panic!("entries are read");
        };
        let from = (gpa - 0x8000) as usize;
        let data = memory[from..from + len as usize].to_vec();
        assert!(matches!(c.on_dma_complete(&mut ctx, token, true, data), DmaRoute::Done));
    }
    let got: Vec<(u16, u16)> = c.sqe_inbox.iter().map(|(_, head, s)| (s.cid(), *head)).collect();
    assert_eq!(got, vec![(0x16, 7), (0x17, 0), (0x10, 1), (0x11, 2)]);
    assert_eq!(c.sqs.get(&1).unwrap().head, 2);
}

#[test]
fn a_torn_fetch_of_an_empty_queue_is_fatal_too() {
    let mut c = with_queues();
    let mut ctx = DeviceCtx::with_start_token(0);
    c.sqs.get_mut(&1).unwrap().size = 0;
    c.pending_fetches.insert(5, FetchCtx { sq_id: 1, count: 2, start_slot: 0 });
    assert!(matches!(c.on_dma_complete(&mut ctx, 5, true, vec![0; 64]), DmaRoute::Done));
    assert_eq!(c.csts, csts::CFS);
    assert!(c.sqe_inbox.is_empty() && c.pending_fetches.is_empty());
}

#[test]
fn what_posts_nothing_needs_no_queue() {
    let mut c = with_queues();
    let mut ctx = DeviceCtx::with_start_token(0);
    c.cqs.get_mut(&1).unwrap().size = 0;
    assert!(matches!(c.dispatch_sqe(&mut ctx, 1, 1, sqe(2, 0, 1, 1, 8, 1)), Route::Io(_)));
    assert_eq!(c.dispatch_sqe(&mut ctx, 1, 2, sqe(5, 1, 2, 1, 8, 1)), Route::Done);
    assert_eq!(c.dispatch_sqe(&mut ctx, 1, 3, sqe(1, 2, 3, 1, 8, 1)), Route::Done);
    assert_eq!(c.pending_ios.len(), 1);
}
