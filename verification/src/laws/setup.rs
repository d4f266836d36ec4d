//! Making a controller and configuring it.
use vstd::prelude::*;

use crate::controller::discovery_log::DiscoveryPortal;
use crate::controller::namespace::{Namespace, ZnsState, ZoneState};
use crate::controller::setup;
use crate::controller::setup::{BackingFile, ConfigError, OpenError};
use crate::controller::NvmeController;
use crate::laws;
use crate::regs::CtrlState;

verus! {

/// File `i` is the first one that holds not even one block.
pub open spec fn first_small(files: Seq<BackingFile>, i: int) -> bool {
    &&& 0 <= i < files.len()
    &&& files[i].size < 512
    &&& forall|j: int| 0 <= j < i ==> (#[trigger] files[j]).size >= 512
}

proof fn lemma_first_small(files: Seq<BackingFile>)
    ensures
        0 <= setup::first_too_small(files) <= files.len(),
        setup::first_too_small(files) < files.len() ==> first_small(
            files,
            setup::first_too_small(files),
        ),
        setup::first_too_small(files) == files.len() ==> forall|j: int|
            0 <= j < files.len() ==> (#[trigger] files[j]).size >= 512,
    decreases files.len(),
{
    if files.len() > 0 && files[0].size >= 512 {
        let rest = files.drop_first();
        lemma_first_small(rest);
        assert forall|j: int| 0 <= j < setup::first_too_small(files) implies (#[trigger] files[j]).size
            >= 512 by {
            if j > 0 {
                assert(rest[j - 1] == files[j]);
                assert(rest[j - 1].size >= 512);
            }
        }
    }
}

/// A controller is made from one to eight files of at least a block each. Any other number is
/// refused, and else the first file that is too small is named.
pub proof fn law_controller_needs_one_to_eight_files(
    files: Vec<BackingFile>,
    vid: u16,
    ssvid: u16,
    zns: &[u32],
    now: u64,
    r: Result<NvmeController, OpenError>,
    i: int,
)
    requires
        call_ensures(NvmeController::open, (files, vid, ssvid, zns, now), r),
    ensures
        files@.len() == 0 ==> r is Err && r->Err_0 == OpenError::NoBackingFile,
        files@.len() > 8 ==> r is Err && r->Err_0 == (OpenError::TooManyBackingFiles {
            count: files@.len() as usize,
        }),
        1 <= files@.len() <= 8 && first_small(files@, i) ==> r is Err && r->Err_0 == (
        OpenError::BackingFileTooSmall { index: i as usize }),
        r is Ok <==> 1 <= files@.len() <= 8 && forall|j: int|
            0 <= j < files@.len() ==> (#[trigger] files@[j]).size >= 512,
{
    lemma_first_small(files@);
    let k = setup::first_too_small(files@);
    if first_small(files@, i) && k < files@.len() {
        if i < k {
            assert(files@[i].size >= 512);
        }
        if k < i {
            assert(files@[k].size >= 512);
        }
    }
    if k < files@.len() {
        assert(files@[k].size < 512);
    }
}

/// Zones of 2048 blocks, or a single smaller one, as many as it takes; all of them are empty,
/// and any number of them may be open.
pub open spec fn zoned_for(z: ZnsState, total: u64) -> bool {
    &&& z.zone_size == (if total >= 2048 {
        2048
    } else {
        total
    })
    &&& z.zone_capacity == z.zone_size
    &&& z.max_open == 0
    &&& z.max_active == 0
    &&& (z.zones@.len() - 1) * z.zone_size < total <= z.zones@.len() * z.zone_size
    &&& forall|i: int|
        0 <= i < z.zones@.len() ==> (#[trigger] z.zones@[i]).write_pointer == 0
            && z.zones@[i].state == ZoneState::Empty
}

/// Each file makes one namespace, numbered from 1 in the order of the files: as many blocks
/// of 512 bytes as the file holds, without metadata, attached, ready and writable, with the
/// reservations of its snapshot, which then persist. Those that were named are zoned.
pub proof fn law_each_file_makes_a_namespace(
    files: Vec<BackingFile>,
    vid: u16,
    ssvid: u16,
    zns: &[u32],
    now: u64,
    r: Result<NvmeController, OpenError>,
    nsid: u32,
)
    requires
        call_ensures(NvmeController::open, (files, vid, ssvid, zns, now), r),
        r is Ok,
    ensures
        r->Ok_0.namespaces@.contains_key(nsid) <==> 1 <= nsid <= files@.len(),
        1 <= nsid <= files@.len() ==> {
            let ns = r->Ok_0.namespaces@[nsid];
            let f = files@[nsid - 1];
            &&& ns.total_lba * 512 <= f.size < (ns.total_lba + 1) * 512
            &&& ns.mmap == f.mmap
            &&& ns.path == f.path
            &&& ns.lbads == 9
            &&& ns.meta_size == 0
            &&& ns.pi_type == 0
            &&& ns.pi_first
            &&& ns.meta_inline
            &&& ns.nswp == 0
            &&& ns.attached
            &&& !ns.not_ready
            &&& !ns.force_flush_err
            &&& ns.ptpl <==> f.snapshot is Some
            &&& match f.snapshot {
                Some(s) => {
                    &&& ns.registrants@ == s.registrants@
                    &&& ns.reservation == s.reservation
                    &&& ns.reservation_gen == s.generation
                },
                None => {
                    &&& ns.registrants@.len() == 0
                    &&& ns.reservation is None
                    &&& ns.reservation_gen == 0
                },
            }
            &&& ns.zns is Some <==> zns@.contains(nsid)
            &&& ns.zns is Some ==> zoned_for(ns.zns->0, ns.total_lba)
        },
{
    lemma_first_small(files@);
    if 1 <= nsid <= files@.len() {
        let ns = r->Ok_0.namespaces@[nsid];
        assert(r->Ok_0.namespaces@.contains_key(nsid));
        let f = files@[nsid - 1];
        assert(f.size >= 512);
        if ns.zns is Some {
            setup::law_zones_cover_the_namespace(ns.zns->0, ns.total_lba);
        }
    }
}

/// A new controller is off and idle: no queue, nothing in flight, nothing waiting, nothing
/// logged or counted, and no shadows.
pub proof fn law_new_controller_is_idle(
    files: Vec<BackingFile>,
    vid: u16,
    ssvid: u16,
    zns: &[u32],
    now: u64,
    r: Result<NvmeController, OpenError>,
    k: u64,
    q: u16,
)
    requires
        call_ensures(NvmeController::open, (files, vid, ssvid, zns, now), r),
        r is Ok,
    ensures
        ({
            let c = r->Ok_0;
            &&& c.state == CtrlState::Disabled
            &&& c.cc == 0
            &&& c.csts == 0
            &&& c.intms == 0
            &&& c.intmc == 0
            &&& c.aqa == 0
            &&& c.asq == 0
            &&& c.acq == 0
            &&& c.bprsel == 0
            &&& c.bpmbl == 0
            &&& !c.sqs@.contains_key(q)
            &&& !c.cqs@.contains_key(q)
            &&& !c.pending_fetches@.contains_key(k)
            &&& !c.pending_ios@.contains_key(k)
            &&& !c.dual_prp_writes@.contains_key(k)
            &&& !c.prp_list_ops@.contains_key(k)
            &&& !c.sgl_ops@.contains_key(k)
            &&& !c.compare_ops@.contains_key(k)
            &&& !c.pi_writes@.contains_key(k)
            &&& !c.pi_reads@.contains_key(k)
            &&& !c.sep_meta_writes@.contains_key(k)
            &&& !c.sep_meta_reads@.contains_key(k)
            &&& !c.pending_fused@.contains_key(q)
            &&& !c.pending_shadow_polls@.contains_key(k)
            &&& !c.pending_eventidx_writes@.contains(k)
            &&& !c.shadow_poll_inflight@.contains(k as u32)
            &&& !c.shadow_ring_pending@.contains(k as u32)
            &&& !c.last_mmio_sq_doorbell@.contains_key(q)
            &&& !c.last_eventidx_sq@.contains_key(q)
            &&& !c.features@.contains_key(q as u8)
            &&& !c.saved_features@.contains_key(q as u8)
            &&& !c.locked_admin_opcodes@.contains(q as u8)
            &&& c.sqe_inbox@.len() == 0
            &&& c.aen_pending@.len() == 0
            &&& c.error_log@.len() == 0
            &&& c.reservation_notification_log@.len() == 0
            &&& c.discovery_portals@.len() == 0
            &&& c.fw_download_buf@.len() == 0
            &&& c.self_test_in_progress is None
            &&& c.self_test_last is None
            &&& c.sanitize is None
            &&& c.sanitize_last_status == 0
            &&& c.stat_host_reads == 0
            &&& c.stat_host_writes == 0
            &&& c.stat_lba_read == 0
            &&& c.stat_lba_written == 0
            &&& c.stat_num_err_log_entries == 0
            &&& c.aen_last_err_count == 0
            &&& c.reservation_notification_count == 0
            &&& c.discovery_gen_ctr == 0
            &&& c.dbbuf_shadow_ahead_count == 0
            &&& c.crypto_gen == 0
            &&& c.doorbell_shadow_gpa == 0
            &&& c.doorbell_event_idx_gpa == 0
            &&& c.current_dispatch_conn_id == 0
            &&& c.host_id_lo == 0
            &&& c.host_id_hi == 0
        }),
{
    let c = r->Ok_0;
    assert(c.powered_on(vid, ssvid, now));
    assert(!Set::<u64>::empty().contains(k));
    assert(!Set::<u16>::empty().contains(q));
    assert(!Set::<u8>::empty().contains(q as u8));
    assert(c.pending_fetches@.dom().contains(k) == c.pending_fetches@.contains_key(k));
}

/// A new controller has the identifiers and the time that it was given, and else the settings
/// of the factory: queues of 128 entries, 256 pairs of them, eight namespaces, four interrupt
/// vectors, no aggregation, optimized access, and firmware in the first slot.
pub proof fn law_factory_settings(
    files: Vec<BackingFile>,
    vid: u16,
    ssvid: u16,
    zns: &[u32],
    now: u64,
    r: Result<NvmeController, OpenError>,
    slot: int,
)
    requires
        call_ensures(NvmeController::open, (files, vid, ssvid, zns, now), r),
        r is Ok,
    ensures
        ({
            let c = r->Ok_0;
            &&& c.vid == vid
            &&& c.ssvid == ssvid
            &&& c.power_on_instant == now
            &&& c.vs == 0x1_0400
            &&& c.cap == 0x20_0a01_007f
            &&& c.granted_io_queues == 256
            &&& c.io_queue_pairs == 256
            &&& c.max_namespaces == 8
            &&& c.msix_count == 4
            &&& c.irq_aggr_time == 0
            &&& c.irq_aggr_threshold == 0
            &&& c.ana_state == 1
            &&& c.ana_change_count == 1
            &&& c.next_op_id == 1
            &&& c.current_ps == 0
            &&& c.fw_active_slot == 1
            &&& c.fw_next_active_slot == 0
            &&& c.fw_slot_revisions@.len() == 8
            &&& c.fw_slot_revisions@[1]@ == "v2.0    "@
            &&& 0 <= slot < 8 && slot != 1 ==> c.fw_slot_revisions@[slot]@.len() == 0
            &&& c.wf()
        }),
{
    assert(r->Ok_0.powered_on(vid, ssvid, now));
    reveal_strlit("");
    if 0 <= slot < 8 && slot != 1 {
        assert(r->Ok_0.fw_slot_revisions@[slot]@ == ""@);
    }
}

/// A file holds a block for every 512 bytes, and none where it has fewer.
pub proof fn law_blocks_of_a_file(size: u64, r: Option<u64>)
    requires
        call_ensures(setup::backing_blocks, (size,), r),
    ensures
        r is Some <==> size >= 512,
        r is Some ==> r->0 * 512 <= size < (r->0 + 1) * 512,
{
}

/// The depth of queues can be set from 2 to 65536, and is reported less one in the low half
/// word of the capabilities; the rest of them is as it always is.
pub proof fn law_queue_depth_is_set(c: &mut NvmeController, entries: u32, r: Result<(), ConfigError>)
    requires
        call_ensures(NvmeController::set_max_queue_entries, (c, entries), r),
    ensures
        r is Ok <==> 2 <= entries <= 65536,
        r is Ok ==> final(c).cap == 0x20_0a01_0000 + (entries - 1) && *final(c) == (NvmeController {
            cap: final(c).cap,
            ..*old(c)
        }),
        r is Err ==> r->Err_0 == ConfigError::OutOfRange && *final(c) == *old(c),
{
}

/// The number of queue pairs can be set from 1 to 256, and is what the host is granted.
pub proof fn law_queue_pairs_are_set(c: &mut NvmeController, pairs: u16, r: Result<(), ConfigError>)
    requires
        call_ensures(NvmeController::set_io_queue_pairs, (c, pairs), r),
    ensures
        r is Ok <==> 1 <= pairs <= 256,
        r is Ok ==> {
            &&& final(c).io_queue_pairs == pairs
            &&& final(c).granted_io_queues == pairs
            &&& *final(c) == (NvmeController {
                io_queue_pairs: final(c).io_queue_pairs,
                granted_io_queues: final(c).granted_io_queues,
                ..*old(c)
            })
        },
        r is Err ==> r->Err_0 == ConfigError::OutOfRange && *final(c) == *old(c),
{
}

/// The number of namespaces can be set from 1 to 8, but not below the number of those that
/// are there.
pub proof fn law_namespace_limit_is_set(c: &mut NvmeController, max: u32, r: Result<(), ConfigError>)
    requires
        call_ensures(NvmeController::set_max_namespaces, (c, max), r),
    ensures
        ({
            let there = old(c).namespaces@.dom().len();
            &&& r is Ok <==> 1 <= max <= 8 && there <= max
            &&& r is Ok ==> final(c).max_namespaces == max && *final(c) == (NvmeController {
                max_namespaces: final(c).max_namespaces,
                ..*old(c)
            })
            &&& r is Err ==> *final(c) == *old(c)
            &&& r is Err && !(1 <= max <= 8) ==> r->Err_0 == ConfigError::OutOfRange
            &&& 1 <= max <= 8 && there > max ==> r->Err_0 == (ConfigError::NamespacesLoaded {
                loaded: there as u32,
            })
        }),
{
}

/// The namespaces that are named wait for a format from now on; any other one is as it was,
/// and none comes or goes.
pub proof fn law_named_namespaces_wait(c: &mut NvmeController, nsids: &[u32], nsid: u32)
    requires
        call_ensures(NvmeController::set_namespaces_not_ready, (c, nsids), ()),
    ensures
        ({
            let (b, a) = (old(c).namespaces@, final(c).namespaces@);
            &&& a.contains_key(nsid) <==> b.contains_key(nsid)
            &&& b.contains_key(nsid) && nsids@.contains(nsid) ==> a[nsid].not_ready && a[nsid] == (
            Namespace { not_ready: a[nsid].not_ready, ..b[nsid] })
            &&& b.contains_key(nsid) && !nsids@.contains(nsid) ==> a[nsid] == b[nsid]
        }),
        *final(c) == (NvmeController { namespaces: final(c).namespaces, ..*old(c) }),
{
    assert(final(c).namespaces@.dom().contains(nsid) == old(c).namespaces@.dom().contains(nsid));
}

/// The discovery log leads where it was last set to; setting it is counted, and an empty one
/// makes no discovery controller.
pub proof fn law_discovery_target(
    c: &mut NvmeController,
    portals: Vec<DiscoveryPortal>,
    mode: bool,
    list: &[DiscoveryPortal],
    count: u64,
)
    requires
        call_ensures(NvmeController::nvme_set_discovery_target, (c, portals), ()),
        call_ensures(NvmeController::nvme_is_discovery_mode, (final(c),), mode),
        call_ensures(NvmeController::nvme_discovery_portals, (final(c),), list),
        call_ensures(NvmeController::nvme_discovery_gen_ctr, (final(c),), count),
    ensures
        list@ == portals@,
        mode <==> portals@.len() != 0,
        count == laws::token_after(old(c).discovery_gen_ctr),
        *final(c) == (NvmeController {
            discovery_portals: final(c).discovery_portals,
            discovery_gen_ctr: final(c).discovery_gen_ctr,
            ..*old(c)
        }),
{
}

} // verus!
