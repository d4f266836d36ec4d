use memmap2::MmapMut;
use nvme_firmware::cmd::sc;
use nvme_firmware::cmd::Sqe;
use nvme_firmware::controller::ctx::{DeviceCtx, TransportEvent};
use nvme_firmware::controller::device::DmaRoute;
use nvme_firmware::controller::inflight::{
    abort_scan, sweep_command, PendingIo, PendingOp, PiWriteAccum, SepMetaReadAccum,
};
use nvme_firmware::controller::setup::BackingFile;
use nvme_firmware::controller::transfer::parse_prp_list;
use nvme_firmware::controller::NvmeController;
use nvme_firmware::regs::{CompletionQueue, SubmissionQueue};
use std::collections::HashMap;

const CQ1: u64 = 0x1_0000;

fn make_ctrl() -> NvmeController {
    let file = BackingFile {
        path: "ns.img".to_string(),
        size: 1 << 20,
        mmap: Some(MmapMut::map_anon(1 << 20).unwrap()),
        snapshot: None,
    };
    let mut c = NvmeController::open(vec![file], 0x1414, 0, &[], 0).ok().unwrap();
    c.cqs.insert(
        1,
        CompletionQueue {
            base_gpa: CQ1,
            size: 64,
            tail: 0,
            phase: 1,
            head: 0,
            interrupt_vector: 0,
            interrupt_enabled: false,
            pending_completions: 0,
            last_fire: None,
        },
    );
    c
}

fn io(cid: u16, op: PendingOp) -> PendingIo {
    PendingIo { sq_id: 1, cid, sq_head: 7, cq_id: 1, nsid: 1, op }
}

/// Identifier and status of each completion among `events` that went to queue 1.
fn cqes(events: &[TransportEvent]) -> Vec<(u16, u16)> {
    let mut r = Vec::new();
    for e in events {
        if let TransportEvent::DmaWrite { gpa, data, .. } = e {
            if *gpa >= CQ1 && *gpa < CQ1 + 64 * 16 && data.len() >= 16 {
                let dw3 = u32::from_le_bytes(data[12..16].try_into().unwrap());
                let status = (((dw3 >> 17) & 0xff) | (((dw3 >> 25) & 0x7) << 8)) as u16;
                r.push(((dw3 & 0xffff) as u16, status));
            }
        }
    }
    r
}

#[test]
fn abort_inflight_command_real_cancel() {
    let mut c = make_ctrl();
    let mut ctx = DeviceCtx::with_start_token(0x100);
    let target: u16 = 0x20;
    let tok = ctx.dma_read(0x4000, 512);
    c.pending_ios.insert(tok, io(target, PendingOp::NvmWriteDmaRead { lba: 5, num_blocks: 1 }));
    assert_eq!(c.pending_ios.len(), 1);
    let pre1 = ctx.events().len();
    assert!(c.try_abort_inflight(&mut ctx, 1, target));
    assert!(c.pending_ios.is_empty());
    assert_eq!(
        cqes(&ctx.events()[pre1..]).pop(),
        Some((target, sc::COMMAND_ABORT_REQUESTED))
    );
    let pre2 = ctx.events().len();
    let late = c.on_dma_complete(&mut ctx, tok, true, vec![0xAB; 4096]);
    assert!(matches!(late, DmaRoute::Unknown));
    assert!(cqes(&ctx.events()[pre2..]).is_empty());
    assert!(c.pending_ios.is_empty());
    assert!(!c.try_abort_inflight(&mut ctx, 1, 0xBEEF));
}

#[test]
fn abort_multi_dma_command_full_cleanup() {
    let mut c = make_ctrl();
    let mut ctx = DeviceCtx::with_start_token(0x100);
    let target: u16 = 0x55;
    let op_id = c.alloc_op_id();
    c.pi_writes.insert(
        op_id,
        PiWriteAccum {
            nsid: 1,
            slba: 0,
            num_blocks: 2,
            data_bytes_total: 2 * 4096,
            received: vec![0u8; 2 * 4096],
            pages_done: 0,
            pages_total: 2,
            sq_id: 1,
            cid: target,
            sq_head: 0,
            cq_id: 1,
            prp_list_pending: false,
        },
    );
    for page_idx in 0..2u32 {
        let tok = ctx.dma_read(0x4000 + 0x1000 * page_idx as u64, 4096);
        c.pending_ios.insert(tok, io(target, PendingOp::NvmWritePiMulti { op_id, page_idx }));
    }
    assert_eq!(c.pending_ios.len(), 2);
    assert_eq!(c.pi_writes.len(), 1);
    let pre = ctx.events().len();
    assert!(c.try_abort_inflight(&mut ctx, 1, target));
    assert!(c.pending_ios.is_empty());
    assert!(c.pi_writes.is_empty());
    assert_eq!(cqes(&ctx.events()[pre..]), vec![(target, sc::COMMAND_ABORT_REQUESTED)]);
}

#[test]
fn abort_leaves_other_commands_alone() {
    let mut c = make_ctrl();
    let mut ctx = DeviceCtx::with_start_token(0);
    c.pending_ios.insert(1, io(1, PendingOp::AdminNsCreate));
    c.pending_ios.insert(2, io(2, PendingOp::AdminNsCreate));
    let mut other_queue = io(1, PendingOp::AdminNsCreate);
    other_queue.sq_id = 2;
    c.pending_ios.insert(3, other_queue);
    assert!(c.try_abort_inflight(&mut ctx, 1, 1));
    let mut left: Vec<u64> = c.pending_ios.keys().copied().collect();
    left.sort();
    assert_eq!(left, vec![2, 3]);
    assert_eq!(c.nvme_token_high_water(), 3);
    assert!(matches!(c.on_dma_complete(&mut ctx, 2, true, vec![]), DmaRoute::Command(p) if p.cid == 2));
    assert!(matches!(c.on_dma_complete(&mut ctx, 2, true, vec![]), DmaRoute::Unknown));
}

#[test]
fn abort_reaches_a_waiting_first_command() {
    let mut c = make_ctrl();
    let mut ctx = DeviceCtx::with_start_token(0);
    let mut sqe = Sqe::read_from_bytes(&[0u8; 64]).unwrap();
    sqe.cdw0 = 0x0042_0105;
    c.pending_fused.insert(1, (sqe, 9));
    assert!(!c.try_abort_inflight(&mut ctx, 1, 0x43));
    assert_eq!(c.pending_fused.len(), 1);
    c.sqs.insert(1, SubmissionQueue { base_gpa: 0, size: 16, head: 0, tail: 0, cq_id: 1 });
    assert!(c.try_abort_inflight(&mut ctx, 1, 0x42));
    assert!(c.pending_fused.is_empty());
    assert_eq!(cqes(ctx.events()), vec![(0x42, sc::COMMAND_ABORT_REQUESTED)]);
    c.pending_fused.insert(1, (sqe, 9));
    let _ = c.nvme_delete_io_sq(1);
    assert!(!c.try_abort_inflight(&mut ctx, 1, 0x42));
    assert!(c.pending_fused.is_empty());
    assert_eq!(cqes(ctx.events()).len(), 1);
}

fn reads(entries: &[(u64, u16)]) -> HashMap<u64, SepMetaReadAccum> {
    entries
        .iter()
        .map(|&(k, cid)| {
            let a = SepMetaReadAccum {
                sq_id: 4,
                cid,
                sq_head: k as u16,
                cq_id: 6,
                remaining: 2,
                num_blocks: 1,
            };
            (k, a)
        })
        .collect()
}

#[test]
fn scan_takes_one_and_sweep_takes_all() {
    let mut m = reads(&[(1, 9), (2, 8), (3, 9)]);
    let (cq, head) = abort_scan(&mut m, 4, 9).unwrap();
    assert_eq!((cq, m.len()), (6, 2));
    assert!(head == 1 || head == 3);
    assert_eq!(abort_scan(&mut m, 4, 7), None);
    assert_eq!(abort_scan(&mut m, 5, 8), None);
    let mut m = reads(&[(1, 9), (2, 8), (3, 9)]);
    assert!(sweep_command(&mut m, 4, 9).is_some());
    assert_eq!(m.keys().copied().collect::<Vec<u64>>(), vec![2]);
    assert_eq!(sweep_command(&mut m, 4, 9), None);
}

#[test]
fn k4c_list_accum_prp_list_pending_flag() {
    let accum = PiWriteAccum {
        nsid: 1,
        slba: 0,
        num_blocks: 4,
        data_bytes_total: 4 * 4096,
        received: vec![0u8; 4 * 4096],
        pages_done: 0,
        pages_total: 4,
        sq_id: 1,
        cid: 1,
        sq_head: 0,
        cq_id: 1,
        prp_list_pending: true,
    };
    assert!(accum.prp_list_pending);
    assert_eq!(accum.pages_total, 4);
}

#[test]
fn prp_list_returns_all_entries_no_zero_termination() {
    let mut bytes = vec![0u8; 64];
    bytes[..8].copy_from_slice(&0x1000_u64.to_le_bytes());
    bytes[8..16].copy_from_slice(&0x2000_u64.to_le_bytes());
    bytes[16..24].copy_from_slice(&0x3000_u64.to_le_bytes());
    bytes[32..40].copy_from_slice(&0xdead_u64.to_le_bytes());
    let entries = parse_prp_list(&bytes);
    assert_eq!(entries.len(), 8);
    assert_eq!(entries[0], 0x1000);
    assert_eq!(entries[1], 0x2000);
    assert_eq!(entries[2], 0x3000);
    assert_eq!(entries[3], 0);
    assert_eq!(entries[4], 0xdead);
}

#[test]
fn a_torn_list_entry_is_dropped() {
    assert_eq!(parse_prp_list(&[1, 0, 0, 0, 0, 0, 0, 0, 2]), vec![1]);
    assert!(parse_prp_list(&[0; 7]).is_empty());
}

fn pattern(n: usize) -> Vec<u8> {
    (0..n).map(|i| (i / 4096 + i % 251) as u8).collect()
}

#[test]
fn one_page_goes_to_the_first_address() {
    let mut c = make_ctrl();
    let mut ctx = DeviceCtx::with_start_token(10);
    let data = pattern(4096);
    c.dma_write_then_complete(&mut ctx, 0x4000, 0x5000, data.clone(), 3, 1, 2, 1);
    assert_eq!(
        ctx.events(),
        &vec![TransportEvent::DmaWrite { token: 10, gpa: 0x4000, data }]
    );
    let p = &c.pending_ios[&10];
    assert_eq!((p.sq_id, p.cid, p.sq_head, p.cq_id, p.nsid), (1, 3, 2, 1, 0));
    assert!(matches!(p.op, PendingOp::NvmReadDmaWrite { num_blocks: 0 }));
}

#[test]
fn two_pages_complete_with_the_second() {
    let mut c = make_ctrl();
    let mut ctx = DeviceCtx::with_start_token(10);
    let data = pattern(4097);
    c.dma_write_then_complete(&mut ctx, 0x4000, 0x5000, data.clone(), 3, 1, 2, 1);
    assert_eq!(
        ctx.events(),
        &vec![
            TransportEvent::DmaWrite { token: 10, gpa: 0x4000, data: data[..4096].to_vec() },
            TransportEvent::DmaWrite { token: 11, gpa: 0x5000, data: data[4096..].to_vec() },
        ]
    );
    assert!(matches!(c.pending_ios[&10].op, PendingOp::NvmReadDualPrpSiblingHalf));
    assert!(matches!(c.pending_ios[&11].op, PendingOp::NvmReadDmaWrite { num_blocks: 0 }));
    assert!(c.prp_list_ops.is_empty());
    assert_eq!(c.nvme_token_high_water(), 11);
}

#[test]
fn more_pages_wait_for_their_list() {
    let mut c = make_ctrl();
    let mut ctx = DeviceCtx::with_start_token(10);
    let data = pattern(2 * 4096 + 1);
    c.dma_write_then_complete(&mut ctx, 0x4000, 0x5000, data.clone(), 3, 1, 2, 1);
    assert_eq!(
        ctx.events(),
        &vec![TransportEvent::DmaRead { token: 10, gpa: 0x5000, len: 4096 }]
    );
    assert!(matches!(c.pending_ios[&10].op, PendingOp::NvmReadPrpListFetch { op_id: 1 }));
    let op = &c.prp_list_ops[&1];
    assert_eq!((op.total_pages, op.pages_done, op.prp1_gpa, op.is_write), (3, 0, 0x4000, false));
    assert!(op.list_entries.is_none());
    let joined: Vec<u8> =
        op.data_pages.iter().flat_map(|p| p.as_ref().unwrap().iter().copied()).collect();
    assert_eq!(joined, data);
    assert_eq!(op.data_pages[2].as_ref().unwrap().len(), 1);
    assert_eq!(c.alloc_op_id(), 2);
}

#[test]
fn operation_numbers_start_over() {
    let mut c = make_ctrl();
    c.next_op_id = u64::MAX;
    assert_eq!(c.alloc_op_id(), u64::MAX);
    assert_eq!(c.alloc_op_id(), 0);
    assert_eq!(c.nvme_token_high_water(), 0);
}
