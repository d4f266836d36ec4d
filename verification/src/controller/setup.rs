//! Making a controller and configuring it.
use std::collections::{HashMap, HashSet, VecDeque};
use vstd::prelude::*;

use crate::controller::ctx;
use crate::controller::dense_map::DenseMap;
use crate::controller::discovery_log::DiscoveryPortal;
use crate::controller::namespace::{Namespace, ZnsState, Zone, ZoneState};
use crate::controller::{
    NvmeController, DEFAULT_MAX_QUEUE_ENTRIES, IO_QUEUE_SLOT_CAPACITY, MAX_MAX_QUEUE_ENTRIES,
    MIN_MAX_QUEUE_ENTRIES, NAMESPACE_SLOT_CAPACITY,
};
use crate::regs;
use crate::regs::{CtrlState, VS_NVME_1_4};

verus! {

broadcast use vstd::std_specs::hash::group_hash_axioms;

/// Blocks in a zone.
pub const ZNS_ZONE_LBAS: u64 = 2048;

/// Reservations that a namespace had when the power went.
#[derive(Debug)]
pub struct ReservationSnapshot {
    pub generation: u32,
    pub reservation: Option<(u64, u8)>,
    pub registrants: Vec<(u64, u64, u64)>,
}

/// A backing file that was opened.
pub struct BackingFile {
    pub path: String,
    /// Length in bytes.
    pub size: u64,
    /// The mapping of the file, if it could be mapped.
    pub mmap: Option<memmap2::MmapMut>,
    pub snapshot: Option<ReservationSnapshot>,
}

/// Why a controller was not made.
#[derive(Debug, Clone, Copy, PartialEq, Eq, Structural)]
pub enum OpenError {
    /// There is no backing file.
    NoBackingFile,
    /// There are more backing files than namespaces.
    TooManyBackingFiles { count: usize },
    /// The backing file at this position is smaller than a block.
    BackingFileTooSmall { index: usize },
}

/// Why a setting was not taken.
#[derive(Debug, Clone, Copy, PartialEq, Eq, Structural)]
pub enum ConfigError {
    /// The value is out of range.
    OutOfRange,
    /// There are more namespaces than that.
    NamespacesLoaded { loaded: u32 },
}

/// Blocks of 512 bytes in `size` bytes.
pub open spec fn blocks_in(size: u64) -> u64 {
    size / 512
}

/// The blocks of a backing file of `size` bytes; `None` where it is too small.
pub fn backing_blocks(size: u64) -> (r: Option<u64>)
    ensures
        r == (if size < 512 {
            None
        } else {
            Some(blocks_in(size))
        }),
{
    assert(size >> 9 == size / 512) by (bit_vector);
    let total_lba: u64 = size >> 9;
    if total_lba == 0 {
        None
    } else {
        Some(total_lba)
    }
}

/// Blocks from the start of a zone to the start of the next, in a namespace of `total`
/// blocks.
pub open spec fn zone_size_for(total: u64) -> u64 {
    if total >= ZNS_ZONE_LBAS {
        ZNS_ZONE_LBAS
    } else if total == 0 {
        1
    } else {
        total
    }
}

/// `z` divides `total` blocks into zones, all of them empty, and sets no limits.
pub open spec fn fresh_zones(z: ZnsState, total: u64) -> bool {
    let size = zone_size_for(total);
    &&& z.zone_size == size
    &&& z.zone_capacity == size
    &&& z.max_open == 0
    &&& z.max_active == 0
    &&& z.zones@ == Seq::new(
        ((total + size - 1) / (size as int)) as nat,
        |i: int| Zone { write_pointer: 0, state: ZoneState::Empty },
    )
}

fn make_zones(total: u64) -> (r: ZnsState)
    ensures
        fresh_zones(r, total),
{
    let size: u64 = if total >= ZNS_ZONE_LBAS {
        ZNS_ZONE_LBAS
    } else if total == 0 {
        1
    } else {
        total
    };
    let n_zones: u64 = total / size + if total % size == 0 {
        0u64
    } else {
        1u64
    };
    proof {
        lemma_div_ceil(total as int, size as int);
    }
    let mut zones: Vec<Zone> = Vec::new();
    let mut i: u64 = 0;
    while i < n_zones
        invariant
            i <= n_zones,
            zones@ =~= Seq::new(i as nat, |j: int| Zone { write_pointer: 0, state: ZoneState::Empty }),
        decreases n_zones - i,
    {
        zones.push(Zone { write_pointer: 0, state: ZoneState::Empty });
        i += 1;
    }
    ZnsState { zone_size: size, zone_capacity: size, max_open: 0, max_active: 0, zones }
}

proof fn lemma_div_ceil(a: int, d: int)
    requires
        0 <= a,
        0 < d,
    ensures
        (a + d - 1) / d == a / d + (if a % d == 0 {
            0int
        } else {
            1int
        }),
        a / d + 1 <= a + 1,
        d > 1 || a % d == 0,
{
    vstd::arithmetic::div_mod::lemma_fundamental_div_mod(a, d);
    let q = a / d;
    let m = a % d;
    vstd::arithmetic::div_mod::lemma_div_nonincreasing(a, d);
    if m == 0 {
        assert(a + d - 1 == q * d + (d - 1)) by (nonlinear_arith)
            requires
                a == d * q + m,
                m == 0,
        ;
        vstd::arithmetic::div_mod::lemma_fundamental_div_mod_converse(a + d - 1, d, q, d - 1);
    } else {
        assert(a + d - 1 == (q + 1) * d + (m - 1)) by (nonlinear_arith)
            requires
                a == d * q + m,
        ;
        vstd::arithmetic::div_mod::lemma_fundamental_div_mod_converse(a + d - 1, d, q + 1, m - 1);
    }
}

/// `ns` is the namespace that backing file `f` makes, but for its zones: plain blocks of
/// 512 bytes, attached and ready, with the reservations that it had.
pub open spec fn made_from(ns: Namespace, f: BackingFile) -> bool {
    &&& ns.registrants@ == (match f.snapshot {
        Some(s) => s.registrants@,
        None => Seq::empty(),
    })
    &&& ns == (Namespace {
        mmap: f.mmap,
        total_lba: blocks_in(f.size),
        path: f.path,
        lbads: 9,
        meta_size: 0,
        pi_type: 0,
        pi_first: true,
        registrants: ns.registrants,
        reservation: match f.snapshot {
            Some(s) => s.reservation,
            None => None,
        },
        reservation_gen: match f.snapshot {
            Some(s) => s.generation,
            None => 0,
        },
        ptpl: f.snapshot is Some,
        nswp: 0,
        attached: true,
        zns: ns.zns,
        meta_inline: true,
        force_flush_err: false,
        not_ready: false,
    })
}

/// The zones of a namespace that is zoned, or none.
pub open spec fn zoned(ns: Namespace, is_zoned: bool) -> bool {
    if is_zoned {
        ns.zns is Some && fresh_zones(ns.zns->0, ns.total_lba)
    } else {
        ns.zns is None
    }
}

/// The position of the first file that is smaller than a block, or the number of files.
pub open spec fn first_too_small(files: Seq<BackingFile>) -> int
    decreases files.len(),
{
    if files.len() == 0 || files[0].size < 512 {
        0
    } else {
        1 + first_too_small(files.drop_first())
    }
}

proof fn lemma_first_too_small(files: Seq<BackingFile>, n: int)
    requires
        0 <= n <= files.len(),
        n < files.len() ==> files[n].size < 512,
        forall|i: int| 0 <= i < n ==> (#[trigger] files[i]).size >= 512,
    ensures
        first_too_small(files) == n,
    decreases files.len(),
{
    if n > 0 {
        assert(files[0].size >= 512);
        let rest = files.drop_first();
        assert forall|i: int| 0 <= i < n - 1 implies (#[trigger] rest[i]).size >= 512 by {
            assert(rest[i] == files[i + 1]);
        }
        lemma_first_too_small(rest, n - 1);
    }
}

fn make_namespace(f: BackingFile) -> (r: Namespace)
    requires
        f.size >= 512,
    ensures
        made_from(r, f),
        r.zns is None,
{
    let size: u64 = f.size;
    assert(size >> 9 == size / 512) by (bit_vector);
    let total_lba: u64 = size >> 9;
    let (generation, reservation, registrants, ptpl): (
        u32,
        Option<(u64, u8)>,
        Vec<(u64, u64, u64)>,
        bool,
    ) = match f.snapshot {
        Some(s) => (s.generation, s.reservation, s.registrants, true),
        None => (0, None, Vec::new(), false),
    };
    Namespace {
        mmap: f.mmap,
        total_lba,
        path: f.path,
        lbads: 9,
        meta_size: 0,
        pi_type: 0,
        pi_first: true,
        registrants,
        reservation,
        reservation_gen: generation,
        ptpl,
        nswp: 0,
        attached: true,
        zns: None,
        meta_inline: true,
        force_flush_err: false,
        not_ready: false,
    }
}

/// The revision strings of the firmware slots: slot 1 holds a version, the others none.
pub open spec fn factory_revisions(v: Seq<String>) -> bool {
    &&& v.len() == 8
    &&& v[1]@ == "v2.0    "@
    &&& forall|i: int| 0 <= i < 8 && i != 1 ==> (#[trigger] v[i])@ == ""@
}

fn make_revisions() -> (r: Vec<String>)
    ensures
        factory_revisions(r@),
{
    let mut r: Vec<String> = Vec::new();
    let mut i: usize = 0;
    while i < 8
        invariant
            i <= 8,
            r@.len() == i,
            i > 1 ==> r@[1]@ == "v2.0    "@,
            forall|j: int| 0 <= j < i && j != 1 ==> (#[trigger] r@[j])@ == ""@,
        decreases 8 - i,
    {
        if i == 1 {
            r.push("v2.0    ".to_owned());
        } else {
            r.push("".to_owned());
        }
        i += 1;
    }
    r
}

impl NvmeController {
    /// Everything but the namespaces is as it is at power-on, at time `now`: disabled,
    /// without queues, with nothing in flight and nothing logged.
    pub open spec fn powered_on(&self, vid: u16, ssvid: u16, now: u64) -> bool {
        &&& self.wf()
        &&& self.cap == regs::cap_value(DEFAULT_MAX_QUEUE_ENTRIES as int, false)
        &&& self.vs == VS_NVME_1_4
        &&& self.intms == 0
        &&& self.intmc == 0
        &&& self.cc == 0
        &&& self.csts == 0
        &&& self.aqa == 0
        &&& self.asq == 0
        &&& self.acq == 0
        &&& self.bprsel == 0
        &&& self.bpmbl == 0
        &&& self.state == CtrlState::Disabled
        &&& self.sqs@ == Map::<u16, regs::SubmissionQueue>::empty()
        &&& self.cqs@ == Map::<u16, regs::CompletionQueue>::empty()
        &&& self.pending_fetches@.dom() == Set::<u64>::empty()
        &&& self.pending_ios@.dom() == Set::<u64>::empty()
        &&& self.dual_prp_writes@.dom() == Set::<u64>::empty()
        &&& self.next_op_id == 1
        &&& self.prp_list_ops@.dom() == Set::<u64>::empty()
        &&& self.sgl_ops@.dom() == Set::<u64>::empty()
        &&& self.compare_ops@.dom() == Set::<u64>::empty()
        &&& self.pi_writes@.dom() == Set::<u64>::empty()
        &&& self.pi_reads@.dom() == Set::<u64>::empty()
        &&& self.sep_meta_writes@.dom() == Set::<u64>::empty()
        &&& self.sep_meta_reads@.dom() == Set::<u64>::empty()
        &&& self.pending_fused@.dom() == Set::<u16>::empty()
        &&& self.sqe_inbox@.len() == 0
        &&& self.stat_host_reads == 0
        &&& self.stat_host_writes == 0
        &&& self.stat_lba_read == 0
        &&& self.stat_lba_written == 0
        &&& self.power_on_instant == now
        &&& self.stat_num_err_log_entries == 0
        &&& self.current_dispatch_conn_id == 0
        &&& self.aen_pending@.len() == 0
        &&& self.discovery_portals@.len() == 0
        &&& self.discovery_gen_ctr == 0
        &&& self.features@.dom() == Set::<u8>::empty()
        &&& self.saved_features@.dom() == Set::<u8>::empty()
        &&& self.granted_io_queues == IO_QUEUE_SLOT_CAPACITY
        &&& self.io_queue_pairs == IO_QUEUE_SLOT_CAPACITY
        &&& self.max_namespaces == NAMESPACE_SLOT_CAPACITY
        &&& self.aen_last_err_count == 0
        &&& self.self_test_in_progress is None
        &&& self.self_test_last is None
        &&& self.error_log@.len() == 0
        &&& self.fw_download_buf@.len() == 0
        &&& self.fw_active_slot == 1
        &&& factory_revisions(self.fw_slot_revisions@)
        &&& self.fw_next_active_slot == 0
        &&& self.sanitize is None
        &&& self.sanitize_last_status == 0
        &&& self.doorbell_shadow_gpa == 0
        &&& self.doorbell_event_idx_gpa == 0
        &&& self.pending_shadow_polls@.dom() == Set::<u64>::empty()
        &&& self.pending_eventidx_writes@ == Set::<u64>::empty()
        &&& self.shadow_poll_inflight@ == Set::<u32>::empty()
        &&& self.shadow_ring_pending@ == Set::<u32>::empty()
        &&& self.last_mmio_sq_doorbell@.dom() == Set::<u16>::empty()
        &&& self.last_eventidx_sq@.dom() == Set::<u16>::empty()
        &&& self.dbbuf_shadow_ahead_count == 0
        &&& self.locked_admin_opcodes@ == Set::<u8>::empty()
        &&& self.crypto_gen == 0
        &&& self.reservation_notification_log@.len() == 0
        &&& self.reservation_notification_count == 0
        &&& self.ana_state == 1
        &&& self.ana_change_count == 1
        &&& self.current_ps == 0
        &&& self.irq_aggr_time == 0
        &&& self.irq_aggr_threshold == 0
        &&& self.host_id_lo == 0
        &&& self.host_id_hi == 0
        &&& self.vid == vid
        &&& self.ssvid == ssvid
        &&& self.msix_count == 4
    }

    /// Makes a controller with one namespace for each backing file, numbered from 1;
    /// those that `zns_nsids` names are zoned, and numbers there that name no namespace
    /// are ignored.
    pub fn open(
        files: Vec<BackingFile>,
        vid: u16,
        ssvid: u16,
        zns_nsids: &[u32],
        now: u64,
    ) -> (r: Result<NvmeController, OpenError>)
        ensures
            files@.len() == 0 ==> r == Err::<NvmeController, _>(OpenError::NoBackingFile),
            files@.len() > 8 ==> r == Err::<NvmeController, _>(
                OpenError::TooManyBackingFiles { count: files@.len() as usize },
            ),
            1 <= files@.len() <= 8 ==> (match r {
                Err(e) => first_too_small(files@) < files@.len() && e
                    == OpenError::BackingFileTooSmall { index: first_too_small(files@) as usize },
                Ok(c) => {
                    &&& first_too_small(files@) == files@.len()
                    &&& c.powered_on(vid, ssvid, now)
                    &&& forall|nsid: u32| #[trigger]
                        c.namespaces@.contains_key(nsid) <==> 1 <= nsid <= files@.len()
                    &&& forall|nsid: u32| #[trigger]
                        c.namespaces@.contains_key(nsid) ==> made_from(
                            c.namespaces@[nsid],
                            files@[nsid - 1],
                        ) && zoned(c.namespaces@[nsid], zns_nsids@.contains(nsid))
                },
            }),
    {
        let ghost all = files@;
        let n: usize = files.len();
        if n == 0 {
            return Err(OpenError::NoBackingFile);
        }
        if n > NAMESPACE_SLOT_CAPACITY as usize {
            return Err(OpenError::TooManyBackingFiles { count: n });
        }
        let mut rest = files;
        let mut namespaces: DenseMap<u32, Namespace> = DenseMap::new(
            NAMESPACE_SLOT_CAPACITY as usize,
        );
        let mut idx: usize = 0;
        while idx < n
            invariant
                idx <= n <= 8,
                n == all.len(),
                all == files@,
                rest@ =~= all.skip(idx as int),
                namespaces.capacity() == 9,
                forall|i: int| 0 <= i < idx ==> (#[trigger] all[i]).size >= 512,
                forall|nsid: u32| #[trigger]
                    namespaces@.contains_key(nsid) <==> 1 <= nsid <= idx,
                forall|nsid: u32| #[trigger]
                    namespaces@.contains_key(nsid) ==> made_from(
                        namespaces@[nsid],
                        all[nsid - 1],
                    ) && namespaces@[nsid].zns is None,
            decreases n - idx,
        {
            let f: BackingFile = rest.remove(0);
            assert(f == all[idx as int]);
            if backing_blocks(f.size).is_none() {
                proof {
                    lemma_first_too_small(all, idx as int);
                }
                return Err(OpenError::BackingFileTooSmall { index: idx });
            }
            namespaces.insert(idx as u32 + 1, make_namespace(f));
            idx += 1;
        }
        proof {
            lemma_first_too_small(all, n as int);
        }
        let mut j: usize = 0;
        while j < zns_nsids.len()
            invariant
                j <= zns_nsids@.len(),
                n == all.len() <= 8,
                namespaces.capacity() == 9,
                forall|nsid: u32| #[trigger]
                    namespaces@.contains_key(nsid) <==> 1 <= nsid <= n,
                forall|nsid: u32| #[trigger]
                    namespaces@.contains_key(nsid) ==> made_from(
                        namespaces@[nsid],
                        all[nsid - 1],
                    ) && zoned(namespaces@[nsid], zns_nsids@.take(j as int).contains(nsid)),
            decreases zns_nsids@.len() - j,
        {
            let nsid: u32 = zns_nsids[j];
            let ghost before = namespaces@;
            if let Some(ns) = namespaces.get_mut(&nsid) {
                ns.zns = Some(make_zones(ns.total_lba));
            }
            let ghost seen = zns_nsids@.take(j as int);
            assert(zns_nsids@.take(j + 1) =~= seen.push(nsid));
            assert forall|k: u32| zns_nsids@.take(j + 1).contains(k) <==> seen.contains(k) || k
                == nsid by {
                if seen.contains(k) {
                    let i = choose|i: int| 0 <= i < seen.len() && seen[i] == k;
                    assert(zns_nsids@.take(j + 1)[i] == k);
                }
                assert(zns_nsids@.take(j + 1)[j as int] == nsid);
            }
            assert forall|k: u32| #[trigger] namespaces@.contains_key(k) implies made_from(
                namespaces@[k],
                all[k - 1],
            ) && zoned(namespaces@[k], zns_nsids@.take(j + 1).contains(k)) by {
                assert(before.contains_key(k));
            }
            j += 1;
        }
        assert(zns_nsids@.take(j as int) =~= zns_nsids@);
        let c = NvmeController {
            namespaces,
            cap: regs::build_cap(DEFAULT_MAX_QUEUE_ENTRIES, false),
            vs: VS_NVME_1_4,
            intms: 0,
            intmc: 0,
            cc: 0,
            csts: 0,
            aqa: 0,
            asq: 0,
            acq: 0,
            bprsel: 0,
            bpmbl: 0,
            state: CtrlState::Disabled,
            sqs: DenseMap::new(IO_QUEUE_SLOT_CAPACITY as usize),
            cqs: DenseMap::new(IO_QUEUE_SLOT_CAPACITY as usize),
            pending_fetches: HashMap::new(),
            pending_ios: HashMap::new(),
            dual_prp_writes: HashMap::new(),
            next_op_id: 1,
            prp_list_ops: HashMap::new(),
            sgl_ops: HashMap::new(),
            compare_ops: HashMap::new(),
            pi_writes: HashMap::new(),
            pi_reads: HashMap::new(),
            sep_meta_writes: HashMap::new(),
            sep_meta_reads: HashMap::new(),
            pending_fused: HashMap::new(),
            sqe_inbox: Vec::new(),
            stat_host_reads: 0,
            stat_host_writes: 0,
            stat_lba_read: 0,
            stat_lba_written: 0,
            power_on_instant: now,
            stat_num_err_log_entries: 0,
            current_dispatch_conn_id: 0,
            aen_pending: VecDeque::new(),
            discovery_portals: Vec::new(),
            discovery_gen_ctr: 0,
            features: HashMap::new(),
            saved_features: HashMap::new(),
            granted_io_queues: IO_QUEUE_SLOT_CAPACITY,
            io_queue_pairs: IO_QUEUE_SLOT_CAPACITY,
            max_namespaces: NAMESPACE_SLOT_CAPACITY,
            aen_last_err_count: 0,
            self_test_in_progress: None,
            self_test_last: None,
            error_log: VecDeque::new(),
            fw_download_buf: Vec::new(),
            fw_active_slot: 1,
            fw_slot_revisions: make_revisions(),
            fw_next_active_slot: 0,
            sanitize: None,
            sanitize_last_status: 0,
            doorbell_shadow_gpa: 0,
            doorbell_event_idx_gpa: 0,
            pending_shadow_polls: HashMap::new(),
            pending_eventidx_writes: HashSet::new(),
            shadow_poll_inflight: HashSet::new(),
            shadow_ring_pending: HashSet::new(),
            last_mmio_sq_doorbell: HashMap::new(),
            last_eventidx_sq: HashMap::new(),
            dbbuf_shadow_ahead_count: 0,
            locked_admin_opcodes: HashSet::new(),
            crypto_gen: 0,
            reservation_notification_log: VecDeque::new(),
            reservation_notification_count: 0,
            ana_state: 0x01,
            ana_change_count: 1,
            current_ps: 0,
            irq_aggr_time: 0,
            irq_aggr_threshold: 0,
            host_id_lo: 0,
            host_id_hi: 0,
            vid,
            ssvid,
            msix_count: 4,
        };
        Ok(c)
    }

    /// Sets the queue depth that CAP reports.
    pub fn set_max_queue_entries(&mut self, entries: u32) -> (r: Result<(), ConfigError>)
        ensures
            MIN_MAX_QUEUE_ENTRIES <= entries <= MAX_MAX_QUEUE_ENTRIES ==> r is Ok && *final(self)
                == (NvmeController {
                cap: regs::cap_value(entries as int, false) as u64,
                ..*old(self)
            }),
            !(MIN_MAX_QUEUE_ENTRIES <= entries <= MAX_MAX_QUEUE_ENTRIES) ==> r == Err::<(), _>(
                ConfigError::OutOfRange,
            ) && *final(self) == *old(self),
    {
        if entries < MIN_MAX_QUEUE_ENTRIES || entries > MAX_MAX_QUEUE_ENTRIES {
            return Err(ConfigError::OutOfRange);
        }
        self.cap = regs::build_cap(entries, false);
        Ok(())
    }

    /// Sets how many pairs of I/O queues the host may have.
    pub fn set_io_queue_pairs(&mut self, pairs: u16) -> (r: Result<(), ConfigError>)
        ensures
            1 <= pairs <= IO_QUEUE_SLOT_CAPACITY ==> r is Ok && *final(self) == (NvmeController {
                io_queue_pairs: pairs,
                granted_io_queues: pairs,
                ..*old(self)
            }),
            !(1 <= pairs <= IO_QUEUE_SLOT_CAPACITY) ==> r == Err::<(), _>(ConfigError::OutOfRange)
                && *final(self) == *old(self),
    {
        if pairs == 0 || pairs > IO_QUEUE_SLOT_CAPACITY {
            return Err(ConfigError::OutOfRange);
        }
        self.io_queue_pairs = pairs;
        self.granted_io_queues = pairs;
        Ok(())
    }

    /// Sets how many namespaces there may be; there have to be no more already.
    pub fn set_max_namespaces(&mut self, max_ns: u32) -> (r: Result<(), ConfigError>)
        requires
            old(self).wf(),
        ensures
            !(1 <= max_ns <= NAMESPACE_SLOT_CAPACITY) ==> r == Err::<(), _>(
                ConfigError::OutOfRange,
            ) && *final(self) == *old(self),
            1 <= max_ns <= NAMESPACE_SLOT_CAPACITY ==> {
                let loaded = old(self).namespaces@.dom().len();
                if loaded > max_ns {
                    r == Err::<(), _>(ConfigError::NamespacesLoaded { loaded: loaded as u32 })
                        && *final(self) == *old(self)
                } else {
                    r is Ok && *final(self) == (NvmeController {
                        max_namespaces: max_ns,
                        ..*old(self)
                    })
                }
            },
    {
        if max_ns == 0 || max_ns > NAMESPACE_SLOT_CAPACITY {
            return Err(ConfigError::OutOfRange);
        }
        let loaded: usize = self.namespaces.len();
        if loaded > max_ns as usize {
            return Err(ConfigError::NamespacesLoaded { loaded: loaded as u32 });
        }
        self.max_namespaces = max_ns;
        Ok(())
    }

    /// Marks the namespaces that `nsids` names as waiting for a format; numbers that
    /// name no namespace are ignored.
    pub fn set_namespaces_not_ready(&mut self, nsids: &[u32])
        ensures
            final(self).namespaces@.dom() == old(self).namespaces@.dom(),
            forall|nsid: u32| #[trigger]
                old(self).namespaces@.contains_key(nsid) ==> final(self).namespaces@[nsid] == (
                Namespace {
                    not_ready: old(self).namespaces@[nsid].not_ready || nsids@.contains(nsid),
                    ..old(self).namespaces@[nsid]
                }),
            *final(self) == (NvmeController { namespaces: final(self).namespaces, ..*old(self) }),
            final(self).namespaces.capacity() == old(self).namespaces.capacity(),
    {
        let ghost before = self.namespaces@;
        let mut j: usize = 0;
        while j < nsids.len()
            invariant
                j <= nsids@.len(),
                before == old(self).namespaces@,
                self.namespaces@.dom() =~= before.dom(),
                forall|nsid: u32| #[trigger]
                    before.contains_key(nsid) ==> self.namespaces@[nsid] == (Namespace {
                        not_ready: before[nsid].not_ready || nsids@.take(j as int).contains(nsid),
                        ..before[nsid]
                    }),
                *self == (NvmeController { namespaces: self.namespaces, ..*old(self) }),
                self.namespaces.capacity() == old(self).namespaces.capacity(),
            decreases nsids@.len() - j,
        {
            let nsid: u32 = nsids[j];
            if let Some(ns) = self.namespaces.get_mut(&nsid) {
                ns.not_ready = true;
            }
            let ghost seen = nsids@.take(j as int);
            assert(nsids@.take(j + 1) =~= seen.push(nsid));
            assert forall|k: u32| nsids@.take(j + 1).contains(k) <==> seen.contains(k) || k
                == nsid by {
                if seen.contains(k) {
                    let i = choose|i: int| 0 <= i < seen.len() && seen[i] == k;
                    assert(nsids@.take(j + 1)[i] == k);
                }
                assert(nsids@.take(j + 1)[j as int] == nsid);
            }
            j += 1;
        }
        assert(nsids@.take(j as int) =~= nsids@);
    }

    /// Sets where the discovery log leads; a controller with any entries is a discovery
    /// controller.
    pub fn nvme_set_discovery_target(&mut self, portals: Vec<DiscoveryPortal>)
        ensures
            *final(self) == (NvmeController {
                discovery_portals: portals,
                discovery_gen_ctr: ctx::successor(old(self).discovery_gen_ctr),
                ..*old(self)
            }),
    {
        self.discovery_portals = portals;
        self.discovery_gen_ctr = self.discovery_gen_ctr.wrapping_add(1);
    }

    pub fn nvme_is_discovery_mode(&self) -> (r: bool)
        ensures
            r == (self.discovery_portals@.len() > 0),
    {
        !self.discovery_portals.is_empty()
    }

    pub fn nvme_discovery_portals(&self) -> (r: &[DiscoveryPortal])
        ensures
            r@ == self.discovery_portals@,
    {
        self.discovery_portals.as_slice()
    }

    /// How often the discovery log was set.
    pub fn nvme_discovery_gen_ctr(&self) -> (r: u64)
        ensures
            r == self.discovery_gen_ctr,
    {
        self.discovery_gen_ctr
    }
}

/// The zones of a namespace cover it, and every one of them starts in it.
pub proof fn law_zones_cover_the_namespace(z: ZnsState, total: u64)
    requires
        fresh_zones(z, total),
        total > 0,
    ensures
        z.zones@.len() * z.zone_size >= total,
        (z.zones@.len() - 1) * z.zone_size < total,
        z.zones@.len() >= 1,
{
    let size = zone_size_for(total) as int;
    let t = total as int;
    let n = (t + size - 1) / size;
    lemma_div_ceil(t, size);
    vstd::arithmetic::div_mod::lemma_fundamental_div_mod(t, size);
    let q = t / size;
    let m = t % size;
    vstd::arithmetic::div_mod::lemma_div_pos_is_pos(t, size);
    assert(n * size >= t && (n - 1) * size < t && n >= 1) by (nonlinear_arith)
        requires
            t == size * q + m,
            0 <= m < size,
            n == q + (if m == 0 {
                0int
            } else {
                1int
            }),
            t > 0,
            size > 0,
            q >= 0,
    ;
    assert(z.zones@.len() == n);
}

/// A namespace that was made from a backing file has only blocks that the file holds.
pub proof fn law_made_namespace_fits_its_file(ns: Namespace, f: BackingFile)
    requires
        made_from(ns, f),
    ensures
        ns.wf(),
        ns.plain(),
        ns.total_lba * ns.block() <= f.size,
{
    vstd::arithmetic::power2::lemma2_to64();
    assert(ns.block() == 512);
    assert(ns.total_lba * ns.block() == ns.total_lba * 512);
}

} // verus!
