use memmap2::MmapMut;
use nvme_firmware::cmd::sc;
use nvme_firmware::cmd::{Cqe, Sqe};
use nvme_firmware::controller::compare::FusedCas;
use nvme_firmware::controller::ctx::{DeviceCtx, TransportEvent};
use nvme_firmware::controller::dense_map::DenseMap;
use nvme_firmware::controller::namespace::{flush_after_mapping, FlushStep, ZoneState};
use nvme_firmware::controller::post::should_fire_irq;
use nvme_firmware::controller::setup::{
    backing_blocks, BackingFile, ConfigError, OpenError, ReservationSnapshot,
};
use nvme_firmware::controller::{NvmeController, IO_QUEUE_SLOT_CAPACITY, NAMESPACE_SLOT_CAPACITY};
use nvme_firmware::pi::{PiCheck, PiTuple, PrChk};

fn backing(size: usize) -> BackingFile {
    BackingFile {
        path: "ns.img".to_string(),
        size: size as u64,
        mmap: Some(MmapMut::map_anon(size).unwrap()),
        snapshot: None,
    }
}

fn backings(n: usize) -> Vec<BackingFile> {
    (0..n).map(|_| backing(1 << 20)).collect()
}

fn open(files: Vec<BackingFile>) -> NvmeController {
    NvmeController::open(files, 0x1414, 0, &[], 0).ok().unwrap()
}

/// One namespace of 1 MiB.
fn make_ctrl() -> NvmeController {
    open(backings(1))
}

fn zero_sqe() -> Sqe {
    Sqe::read_from_bytes(&[0u8; 64]).unwrap()
}

fn status(cqe: &Cqe) -> u16 {
    (((cqe.dw3 >> 17) & 0xff) | (((cqe.dw3 >> 25) & 0x7) << 8)) as u16
}

fn cid_of(cqe: &Cqe) -> u16 {
    (cqe.dw3 & 0xffff) as u16
}

fn both(r: FusedCas) -> (Cqe, Cqe) {
    match r {
        FusedCas::Complete { compare, write } => (compare, write),
        FusedCas::WriteFile { .. } => panic!("the mapping covers the blocks"),
    }
}

fn pair_sqe(opc: u8, cid: u16, slba: u64) -> Sqe {
    let mut b = [0u8; 64];
    b[0] = opc;
    b[2..4].copy_from_slice(&cid.to_le_bytes());
    b[4..8].copy_from_slice(&1u32.to_le_bytes());
    b[40..44].copy_from_slice(&(slba as u32).to_le_bytes());
    b[48..52].copy_from_slice(&0u32.to_le_bytes());
    Sqe::read_from_bytes(&b[..]).unwrap()
}

#[test]
fn fused_cas_atomic_compare_and_write() {
    let mut c = make_ctrl();
    let sector = 512usize;
    let lba = 5u64;
    let off = lba * sector as u64;
    let p0 = vec![0xC0u8; sector];
    let p1 = vec![0xC1u8; sector];
    let p2 = vec![0xC2u8; sector];
    let read_lba = |c: &NvmeController| {
        let mut g = vec![0u8; sector];
        assert!(c.namespaces.get(&1).unwrap().read_at(&mut g, off));
        g
    };
    assert!(c.namespaces.get_mut(&1).unwrap().write_at(&p0, off));

    let (cc, wc) = both(c.nvme_fused_cas(
        1,
        1,
        pair_sqe(0x05, 0x100, lba),
        pair_sqe(0x01, 0x101, lba),
        &p0,
        &p1,
        None,
    ));
    assert_eq!((status(&cc), status(&wc)), (0, 0));
    assert_eq!((cid_of(&cc), cid_of(&wc)), (0x100, 0x101));
    assert_eq!(read_lba(&c), p1);

    let (cc, wc) = both(c.nvme_fused_cas(
        1,
        1,
        pair_sqe(0x05, 0x200, lba),
        pair_sqe(0x01, 0x201, lba),
        &p0,
        &p2,
        None,
    ));
    assert_eq!((status(&cc), status(&wc)), (sc::COMPARE_FAILURE, sc::COMPARE_FAILURE));
    assert_eq!(read_lba(&c), p1);

    let (cc, wc) = both(c.nvme_fused_cas(
        1,
        1,
        pair_sqe(0x05, 0x300, lba),
        pair_sqe(0x01, 0x301, lba + 1),
        &p1,
        &p2,
        None,
    ));
    assert_eq!((status(&cc), status(&wc)), (sc::INVALID_FIELD, sc::INVALID_FIELD));
    assert_eq!(read_lba(&c), p1);

    let short = vec![0xC1u8; sector - 1];
    let (cc, _) = both(c.nvme_fused_cas(
        1,
        1,
        pair_sqe(0x05, 0x400, lba),
        pair_sqe(0x01, 0x401, lba),
        &short,
        &p2,
        None,
    ));
    assert_eq!(status(&cc), sc::INVALID_FIELD);
    assert_eq!(read_lba(&c), p1);
}

#[test]
fn cas_counts_and_logs() {
    let mut c = make_ctrl();
    let (zero, one) = (vec![0u8; 512], vec![1u8; 512]);
    let (cmp, wr) = (pair_sqe(0x05, 1, 3), pair_sqe(0x01, 2, 3));
    let _ = c.nvme_fused_cas(4, 1, cmp, wr, &zero, &one, None);
    assert_eq!((c.stat_host_reads, c.stat_lba_read), (1, 1));
    assert_eq!((c.stat_host_writes, c.stat_lba_written), (1, 1));
    let (again, _) = both(c.nvme_fused_cas(4, 1, cmp, wr, &zero, &one, None));
    assert_eq!(status(&again), sc::COMPARE_FAILURE);
    assert_eq!(c.stat_num_err_log_entries, 1);
    let e = c.error_log[0];
    assert_eq!((e.error_count, e.sq_id, e.cid, e.lba, e.nsid), (1, 4, 1, 3, 1));
    assert_eq!(e.status_field, sc::sf_of(sc::COMPARE_FAILURE));
}

#[test]
fn cas_refusals() {
    let mut c = make_ctrl();
    let d = vec![0u8; 512];
    let (cmp, wr) = (pair_sqe(0x05, 1, 2048), pair_sqe(0x01, 2, 2048));
    let (r, _) = both(c.nvme_fused_cas(1, 1, cmp, wr, &d, &d, None));
    assert_eq!(status(&r), sc::LBA_OUT_OF_RANGE);
    let (mut cmp, mut wr) = (pair_sqe(0x05, 1, 0), pair_sqe(0x01, 2, 0));
    cmp.nsid = 2;
    wr.nsid = 2;
    let (r, w) = both(c.nvme_fused_cas(1, 1, cmp, wr, &d, &d, None));
    assert_eq!((status(&r), status(&w)), (sc::INVALID_NAMESPACE, sc::INVALID_NAMESPACE));
    c.namespaces.get_mut(&1).unwrap().pi_type = 1;
    let (r, _) =
        both(c.nvme_fused_cas(1, 1, pair_sqe(0x05, 1, 0), pair_sqe(0x01, 2, 0), &d, &d, None));
    assert_eq!(status(&r), sc::INVALID_FIELD);
}

#[test]
fn cas_waits_for_a_ready_namespace() {
    let mut c = make_ctrl();
    c.set_namespaces_not_ready(&[1]);
    let (old, new) = (vec![0u8; 512], vec![1u8; 512]);
    let (cmp, wr) = (pair_sqe(0x05, 1, 3), pair_sqe(0x01, 2, 3));
    let (r, w) = both(c.nvme_fused_cas(1, 1, cmp, wr, &old, &new, None));
    assert_eq!((status(&r), status(&w)), (sc::NAMESPACE_NOT_READY, sc::NAMESPACE_NOT_READY));
    let mut now = vec![9u8; 512];
    assert!(c.namespaces.get(&1).unwrap().read_at(&mut now, 3 * 512));
    assert_eq!(now, old);
    assert_eq!((c.stat_host_reads, c.stat_host_writes, c.stat_num_err_log_entries), (0, 0, 0));
    c.namespaces.get_mut(&1).unwrap().not_ready = false;
    let (r, w) = both(c.nvme_fused_cas(1, 1, cmp, wr, &old, &new, None));
    assert_eq!((status(&r), status(&w)), (0, 0));
}

#[test]
fn cas_without_a_mapping_goes_to_the_file() {
    let mut files = backings(1);
    files[0].mmap = None;
    let mut c = open(files);
    let (old, new) = (vec![7u8; 512], vec![8u8; 512]);
    let (cmp, wr) = (pair_sqe(0x05, 1, 2), pair_sqe(0x01, 2, 2));
    let (r, _) = both(c.nvme_fused_cas(1, 1, cmp, wr, &old, &new, None));
    assert_eq!(status(&r), sc::DATA_TRANSFER_ERROR);
    let (r, _) = both(c.nvme_fused_cas(1, 1, cmp, wr, &old, &new, Some(new.clone())));
    assert_eq!(status(&r), sc::COMPARE_FAILURE);
    assert_eq!(
        c.nvme_fused_cas(1, 1, cmp, wr, &old, &new, Some(old.clone())),
        FusedCas::WriteFile { nsid: 1, offset: 1024 }
    );
    assert_eq!(c.stat_host_writes, 0);
    let (r, w) = c.nvme_fused_cas_written(1, 1, cmp, wr, false);
    assert_eq!((status(&r), status(&w)), (sc::DATA_TRANSFER_ERROR, sc::DATA_TRANSFER_ERROR));
    let (r, w) = c.nvme_fused_cas_written(1, 1, cmp, wr, true);
    assert_eq!((status(&r), status(&w)), (0, 0));
    assert_eq!(c.stat_host_writes, 1);
}

#[test]
fn compare_finalize_outcomes() {
    let mut c = make_ctrl();
    assert!(c.namespaces.get_mut(&1).unwrap().write_at(&[9u8; 1024], 512));
    let half = vec![9u8; 512];
    let r = c.compare_finalize(1, 1, 2, half.clone(), Some(half.clone()), None, 5, 1, 3, 1);
    assert_eq!((status(&r), cid_of(&r), r.dw2), (0, 5, 3 | (1 << 16)));
    assert_eq!((c.stat_host_reads, c.stat_lba_read), (1, 2));
    let long = vec![9u8; 4096];
    let r = c.compare_finalize(1, 1, 2, long, None, None, 5, 1, 3, 1);
    assert_eq!(status(&r), 0);
    let r = c.compare_finalize(1, 1, 2, half.clone(), None, None, 5, 1, 3, 1);
    assert_eq!(status(&r), sc::COMPARE_FAILURE);
    assert_eq!(c.error_log.len(), 1);
    let r = c.compare_finalize(7, 1, 2, half.clone(), None, None, 5, 1, 3, 1);
    assert_eq!(status(&r), sc::INVALID_NAMESPACE);
    assert_eq!(c.error_log.len(), 1);
    let r = c.compare_finalize(1, 2047, 2, half.clone(), Some(half), None, 5, 1, 3, 1);
    assert_eq!(status(&r), sc::DATA_TRANSFER_ERROR);
    assert_eq!(c.error_log.len(), 2);
}

#[test]
fn multi_namespace_open_and_active_list() {
    let c = open(backings(2));
    assert_eq!(c.namespaces.len(), 2);
    assert!(c.namespaces.contains_key(&1));
    assert!(c.namespaces.contains_key(&2));
    assert!(c.ns(0).is_none());
    assert!(c.ns(0xFFFF_FFFF).is_none());
    assert!(c.ns(3).is_none());
    assert_eq!(c.ns(1).unwrap().total_lba, 2048);
    assert_eq!(c.ns(2).unwrap().total_lba, 2048);
}

#[test]
fn zns_namespace_init() {
    let c = NvmeController::open(vec![backing(8 * 1024 * 1024)], 0x1414, 0, &[1], 0).ok().unwrap();
    let zns = c.namespaces.get(&1).unwrap().zns.as_ref().unwrap();
    assert_eq!(zns.zones.len(), 8);
    assert_eq!(zns.zone_size, 2048);
    assert_eq!(zns.zone_capacity, 2048);
    assert!(zns.zones.iter().all(|z| z.state == ZoneState::Empty));
    assert!(zns.zones.iter().all(|z| z.write_pointer == 0));
}

#[test]
fn last_zone_may_be_partial() {
    let c = NvmeController::open(
        vec![backing(2049 * 512), backing(5 * 512 + 100)],
        0x1414,
        0,
        &[2, 1, 9],
        0,
    )
    .ok()
    .unwrap();
    let zones = |nsid: u32| {
        let z = c.namespaces.get(&nsid).unwrap().zns.as_ref().unwrap();
        (z.zone_size, z.zones.len())
    };
    assert_eq!(zones(1), (2048, 2));
    assert_eq!(zones(2), (5, 1));
}

#[test]
fn namespace_cap_rejects_more_than_8() {
    let err = NvmeController::open(backings(9), 0x1414, 0, &[], 0).err().unwrap();
    assert_eq!(err, OpenError::TooManyBackingFiles { count: 9 });
    assert!(NvmeController::open(backings(8), 0x1414, 0, &[], 0).is_ok());
}

#[test]
fn open_refusals() {
    let err = NvmeController::open(vec![], 0x1414, 0, &[], 0).err().unwrap();
    assert_eq!(err, OpenError::NoBackingFile);
    let mut files = backings(3);
    files[1].size = 511;
    let err = NvmeController::open(files, 0x1414, 0, &[], 0).err().unwrap();
    assert_eq!(err, OpenError::BackingFileTooSmall { index: 1 });
    assert_eq!(backing_blocks(511), None);
    assert_eq!(backing_blocks(1535), Some(2));
}

#[test]
fn open_restores_reservations() {
    let mut files = backings(2);
    files[1].snapshot = Some(ReservationSnapshot {
        generation: 6,
        reservation: Some((0xdead_beef, 1)),
        registrants: vec![(0xdead_beef, 1, 2)],
    });
    let c = open(files);
    let (a, b) = (c.ns(1).unwrap(), c.ns(2).unwrap());
    assert!(!a.ptpl && a.registrants.is_empty() && a.reservation.is_none());
    assert!(b.ptpl);
    assert_eq!(b.registrants, vec![(0xdead_beef, 1, 2)]);
    assert_eq!((b.reservation, b.reservation_gen), (Some((0xdead_beef, 1)), 6));
}

#[test]
fn power_on_state() {
    let c = NvmeController::open(backings(1), 0x1414, 0x55, &[], 99).ok().unwrap();
    assert_eq!(c.cap, 0x20_0a01_007f);
    assert_eq!((c.vs, c.csts, c.cc), (0x0001_0400, 0, 0));
    assert_eq!((c.granted_io_queues, c.io_queue_pairs, c.max_namespaces), (256, 256, 8));
    assert_eq!((c.fw_active_slot, c.fw_next_active_slot, c.next_op_id), (1, 0, 1));
    assert_eq!(c.fw_slot_revisions[1], "v2.0    ");
    assert_eq!(c.fw_slot_revisions[0], "");
    assert_eq!((c.ana_state, c.ana_change_count, c.power_on_instant), (1, 1, 99));
    assert!(!c.nvme_has_admin_cq());
}

#[test]
fn set_max_queue_entries_validates_and_writes_mqes() {
    let mut c = make_ctrl();
    for &n in &[2u32, 100, 128, 4096, 65536] {
        c.set_max_queue_entries(n).unwrap();
        let mqes_plus_1 = (c.cap & 0xffff) + 1;
        assert_eq!(mqes_plus_1, n as u64);
    }
    for &n in &[0u32, 1, 65537, 100000] {
        assert!(c.set_max_queue_entries(n).is_err());
    }
}

#[test]
fn set_io_queue_pairs_caps_grant() {
    let mut c = make_ctrl();
    c.set_io_queue_pairs(8).unwrap();
    assert_eq!(c.granted_io_queues - 1, 7);
    assert!(c.set_io_queue_pairs(300).is_err());
    assert!(c.set_io_queue_pairs(0).is_err());
    assert!(c.set_io_queue_pairs(256).is_ok());
}

#[test]
fn io_queue_pairs_are_limited() {
    let mut c = make_ctrl();
    assert_eq!(c.set_io_queue_pairs(8), Ok(()));
    assert_eq!((c.io_queue_pairs, c.granted_io_queues), (8, 8));
    assert_eq!(c.set_io_queue_pairs(300), Err(ConfigError::OutOfRange));
    assert_eq!(c.set_io_queue_pairs(0), Err(ConfigError::OutOfRange));
    assert_eq!(c.io_queue_pairs, 8);
    assert!(c.set_io_queue_pairs(256).is_ok());
}

#[test]
fn set_max_namespaces_validates() {
    let mut c = make_ctrl();
    assert!(c.set_max_namespaces(1).is_ok());
    assert!(c.set_max_namespaces(8).is_ok());
    assert!(c.set_max_namespaces(0).is_err());
    assert!(c.set_max_namespaces(9).is_err());
    let mut c2 = open(backings(2));
    assert_eq!(c2.set_max_namespaces(1), Err(ConfigError::NamespacesLoaded { loaded: 2 }));
    assert!(c2.set_max_namespaces(2).is_ok());
}

#[test]
fn ns_create_gate_uses_runtime_max_namespaces() {
    let mut c = open(backings(2));
    c.set_max_namespaces(4).unwrap();
    let next = (1..=c.max_namespaces).find(|n| !c.namespaces.contains_key(n));
    assert_eq!(next, Some(3));
    c.set_max_namespaces(2).unwrap();
    let next = (1..=c.max_namespaces).find(|n| !c.namespaces.contains_key(n));
    assert_eq!(next, None);
}

#[test]
fn ns_mgmt_create_no_free_nsid_when_8_full() {
    let c = open(backings(8));
    assert_eq!(c.namespaces.len(), 8);
    let next = (1..=NAMESPACE_SLOT_CAPACITY).find(|n| !c.namespaces.contains_key(n));
    assert_eq!(next, None);
}

#[test]
fn namespaces_can_wait_for_a_format() {
    let mut c = open(backings(3));
    c.set_namespaces_not_ready(&[2, 9, 2]);
    assert!(!c.ns(1).unwrap().not_ready);
    assert!(c.ns(2).unwrap().not_ready);
    assert!(!c.ns(3).unwrap().not_ready);
    assert_eq!(c.namespaces.len(), 3);
}

#[test]
fn features_set_get_round_trip_and_special_cases() {
    let mut c = make_ctrl();
    c.features.insert(0x42, 0xdead_beef);
    assert_eq!(*c.features.get(&0x42).unwrap(), 0xdead_beef);
    assert_eq!(c.features.get(&0xff).copied().unwrap_or(0), 0);
    let cap: u16 = IO_QUEUE_SLOT_CAPACITY;
    assert!(cap >= 1);
    c.features.insert(0x06, 0x1);
    assert_eq!(c.features[&0x06] & 0x1, 0x1);
}

#[test]
fn mmap_zero_copy_round_trip() {
    let mut c = make_ctrl();
    let ns = c.namespaces.get_mut(&1).unwrap();
    assert!(ns.mmap.is_some());
    let pattern: Vec<u8> = (0..4096u32).map(|i| (i ^ 0xAA) as u8).collect();
    assert!(ns.write_at(&pattern, 0));
    let mut readback = vec![0u8; 4096];
    assert!(ns.read_at(&mut readback, 0));
    assert_eq!(readback, pattern);
    assert!(ns.write_at(&[0x55; 512], 8 * 512));
    let mut tail = vec![0u8; 512];
    assert!(ns.read_at(&mut tail, 8 * 512));
    assert_eq!(tail, vec![0x55; 512]);
    assert_eq!(ns.flush(), FlushStep::SyncMapping);
    assert!(ns.mmap.as_ref().unwrap().flush().is_ok());
}

#[test]
fn format_drops_and_rebuilds_mmap() {
    let mut c = make_ctrl();
    let ns = c.namespaces.get_mut(&1).unwrap();
    assert!(ns.mmap.is_some());
    assert!(ns.write_at(&[0xAA; 4096], 0));
    let mut buf = vec![0u8; 4096];
    assert!(ns.read_at(&mut buf, 0));
    assert_eq!(buf, vec![0xAA; 4096]);
    ns.mmap = None;
    assert!(!ns.read_at(&mut buf, 0));
    ns.mmap = Some(MmapMut::map_anon(1 << 20).unwrap());
    assert!(ns.read_at(&mut buf, 0));
    assert_eq!(buf, vec![0u8; 4096]);
    assert!(ns.write_at(&[0x55; 4096], 0));
    assert!(ns.read_at(&mut buf, 0));
    assert_eq!(buf, vec![0x55; 4096]);
}

#[test]
fn ranges_beyond_the_mapping_are_left_to_the_file() {
    let mut c = make_ctrl();
    let ns = c.namespaces.get_mut(&1).unwrap();
    let end = 1u64 << 20;
    let mut buf = [3u8; 2];
    assert!(!ns.write_at(&[1, 2], end - 1));
    assert!(!ns.read_at(&mut buf, end - 1));
    assert!(!ns.read_at(&mut buf, u64::MAX));
    assert_eq!(buf, [3, 3]);
    assert!(ns.read_at(&mut buf, end - 2));
    assert_eq!(buf, [0, 0]);
    assert!(ns.read_at(&mut [], end));
}

#[test]
fn what_a_flush_does() {
    let mut c = make_ctrl();
    let ns = c.namespaces.get_mut(&1).unwrap();
    assert_eq!(ns.flush(), FlushStep::SyncMapping);
    assert_eq!(flush_after_mapping(true), None);
    assert_eq!(flush_after_mapping(false), Some(FlushStep::SyncFile));
    ns.mmap = None;
    assert_eq!(ns.flush(), FlushStep::SyncFile);
    ns.force_flush_err = true;
    assert_eq!(ns.flush(), FlushStep::Fail);
}

#[test]
fn block_sizes() {
    let mut c = make_ctrl();
    let ns = c.namespaces.get_mut(&1).unwrap();
    assert_eq!((ns.data_bytes(), ns.block_bytes(), ns.meta_bytes()), (512, 512, 0));
    ns.lbads = 12;
    ns.meta_size = 8;
    ns.pi_type = 1;
    assert_eq!((ns.data_bytes(), ns.block_bytes(), ns.meta_bytes()), (4096, 4104, 8));
    assert!(ns.pi_enabled() && !ns.is_plain());
    assert_eq!(c.ns_lbads(1), Some(12));
    assert_eq!(c.ns_lbads(2), None);
    c.ns_mut(1).unwrap().lbads = 9;
    assert_eq!(c.ns_lbads(1), Some(9));
    assert!(c.ns_mut(0).is_none() && c.ns_mut(0xffff_ffff).is_none());
}

#[test]
fn k4c_multi_lba_pi_layout_round_trip() {
    let mut c = open(vec![backing(4 * 4104)]);
    let ns = c.namespaces.get_mut(&1).unwrap();
    ns.lbads = 12;
    ns.meta_size = 8;
    ns.pi_type = 1;
    ns.pi_first = false;
    ns.total_lba = 4;
    for lba in 0..4u64 {
        let data: Vec<u8> = (0..4096).map(|i| ((i as u64 ^ lba) & 0xff) as u8).collect();
        let tuple = PiTuple::compute(&data, lba, 1);
        let tuple_bytes = tuple.to_bytes();
        let mut block = vec![0u8; 4104];
        block[0..4096].copy_from_slice(&data);
        block[4096..4104].copy_from_slice(&tuple_bytes);
        assert!(ns.write_at(&block, lba * 4104));
    }
    let mut interleaved = vec![0u8; 4 * 4104];
    assert!(ns.read_at(&mut interleaved, 0));
    for i in 0..4usize {
        let blk = &interleaved[i * 4104..(i + 1) * 4104];
        let data = &blk[..4096];
        let tuple_arr: [u8; 8] = blk[4096..4104].try_into().unwrap();
        let tuple = PiTuple::from_bytes(&tuple_arr);
        assert_eq!(tuple.verify(data, i as u64, 1, PrChk::all()), PiCheck::Pass);
    }
    assert!(ns.write_at(&[0xff], 2 * 4104));
    let mut blk = vec![0u8; 4104];
    assert!(ns.read_at(&mut blk, 2 * 4104));
    let data = &blk[..4096];
    let tuple_arr: [u8; 8] = blk[4096..4104].try_into().unwrap();
    let tuple = PiTuple::from_bytes(&tuple_arr);
    assert_eq!(tuple.verify(data, 2, 1, PrChk::all()), PiCheck::GuardFail);
}

#[test]
fn sqe_fuse_field_extraction() {
    let mut sqe = zero_sqe();
    sqe.cdw0 = 0x0042_0001;
    assert_eq!(sqe.fuse(), 0);
    assert_eq!(sqe.opcode(), 0x01);
    assert_eq!(sqe.cid(), 0x0042);
    sqe.cdw0 = 0x0042_0101;
    assert_eq!(sqe.fuse(), 1);
    sqe.cdw0 = 0x0042_0201;
    assert_eq!(sqe.fuse(), 2);
    sqe.cdw0 = 0x0042_0301;
    assert_eq!(sqe.fuse(), 3);
}

#[test]
fn o3_fused_cw_protocol_invariants() {
    let mut sqe = zero_sqe();
    sqe.cdw0 = 0x0042_0105;
    assert_eq!(sqe.fuse(), 1);
    assert_eq!(sqe.opcode(), 0x05);
    let mut sqe2 = zero_sqe();
    sqe2.cdw0 = 0x0043_0201;
    assert_eq!(sqe2.fuse(), 2);
    assert_eq!(sqe2.opcode(), 0x01);
}

#[test]
fn o3_fused_cw_dispatch_chain_smoke() {
    let mut c = make_ctrl();
    assert!(c.namespaces.get_mut(&1).unwrap().write_at(&[0xAB; 512], 0));
    let cap = DeviceCtx::with_start_token(1);
    assert!(cap.events().is_empty());
}

#[test]
fn entry_layouts() {
    let mut b = [0u8; 64];
    for (i, x) in b.iter_mut().enumerate() {
        *x = i as u8;
    }
    let s = Sqe::read_from_bytes(&b).unwrap();
    assert_eq!((s.cdw0, s.nsid, s.mptr), (0x0302_0100, 0x0706_0504, 0x1716_1514_1312_1110));
    assert_eq!((s.prp1, s.prp2), (0x1f1e_1d1c_1b1a_1918, 0x2726_2524_2322_2120));
    assert_eq!((s.cdw10, s.cdw15), (0x2b2a_2928, 0x3f3e_3d3c));
    assert_eq!((s.slba(), s.nlb()), (0x2f2e_2d2c_2b2a_2928, 0x3130 + 1));
    assert!(Sqe::read_from_bytes(&b[..63]).is_none());
    let c = Cqe::error(0x1122, 0x3344, 0x5566, 1, sc::COMPARE_FAILURE);
    assert_eq!(
        c.as_bytes(),
        vec![0, 0, 0, 0, 0, 0, 0, 0, 0x66, 0x55, 0x44, 0x33, 0x22, 0x11, 0x0b, 0x05]
    );
    assert_eq!(sc::sf_of(sc::COMPARE_FAILURE), (0x85 << 1) | (0x2 << 9));
    assert_eq!(sc::sf_of(sc::INVALID_FIELD), 0x02 << 1);
}

#[test]
fn devicectx_mock_captures_dma_read() {
    let mut ctx = DeviceCtx::with_start_token(200);
    let t_read = ctx.dma_read(0x1000_0000, 4096);
    assert_eq!(t_read, 200);
    let t_write = ctx.dma_write(0x2000_0000, vec![0xCD; 8]);
    assert_eq!(t_write, 201);
    ctx.fire_interrupt(7);
    assert_eq!(ctx.events().len(), 3);
    assert_eq!(
        ctx.events()[0],
        TransportEvent::DmaRead { token: 200, gpa: 0x1000_0000, len: 4096 }
    );
    assert_eq!(
        ctx.events()[1],
        TransportEvent::DmaWrite { token: 201, gpa: 0x2000_0000, data: vec![0xCD; 8] }
    );
    assert_eq!(ctx.events()[2], TransportEvent::FireInterrupt { msix_index: 7 });
    assert_eq!(ctx.take_events().len(), 3);
    assert!(ctx.events().is_empty());
    assert_eq!(ctx.dma_read(0, 1), 202);
}

#[test]
fn dense_map_basic_semantics() {
    let mut m: DenseMap<u16, &'static str> = DenseMap::new(8);
    assert!(m.get(&3).is_none());
    assert_eq!(m.insert(3, "a"), None);
    assert_eq!(m.insert(1, "b"), None);
    assert_eq!(m.insert(3, "c"), Some("a"));
    assert_eq!(*m.get(&3).unwrap(), "c");
    assert!(m.contains_key(&1) && !m.contains_key(&2));
    assert_eq!(m.keys(), vec![1, 3]);
    assert_eq!(m.remove(&1), Some("b"));
    assert!(!m.contains_key(&1));
}

#[test]
fn dense_map_edges() {
    let mut m: DenseMap<u32, u8> = DenseMap::new(2);
    assert_eq!(m.insert(2, 5), None);
    assert_eq!(m.insert(3, 6), None);
    assert_eq!(m.len(), 1);
    assert!(m.get(&3).is_none() && m.get_mut(&3).is_none() && m.remove(&3).is_none());
    *m.get_mut(&2).unwrap() = 9;
    assert_eq!(m.get(&2), Some(&9));
    m[&2] += 1;
    assert_eq!(m[&2], 10);
    let _ = m.insert(0, 4);
    assert_eq!(m.iter(), vec![(0, &4), (2, &10)]);
    m.clear();
    assert_eq!((m.len(), m.keys()), (0, vec![]));
}

#[test]
fn irq_coalesce_decision() {
    assert!(should_fire_irq(0, 0, 200, 200));
    assert!(should_fire_irq(0, 1, 100, 100));
    assert!(should_fire_irq(1, 1, 0, 0));
    assert!(should_fire_irq(1, 1, 0, 50));
    assert!(!should_fire_irq(1, 1, 3, 0));
    assert!(!should_fire_irq(1, 2, 3, 0));
    assert!(!should_fire_irq(1, 3, 3, 0));
    assert!(should_fire_irq(1, 4, 3, 0));
    assert!(should_fire_irq(1, 5, 3, 0));
    assert!(!should_fire_irq(1, 1, 1, 0));
    assert!(should_fire_irq(1, 2, 1, 0));
    assert!(should_fire_irq(1, 256, 255, 0));
    assert!(!should_fire_irq(1, 255, 255, 0));
}
