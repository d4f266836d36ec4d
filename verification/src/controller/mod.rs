//! The controller: its state, and the operations on it.
use std::collections::{HashMap, HashSet, VecDeque};
use vstd::prelude::*;

use crate::cmd::Sqe;
use crate::controller::dense_map::DenseMap;
use crate::controller::discovery_log::DiscoveryPortal;
use crate::controller::inflight::{
    CompareAccum, PendingIo, PiReadAccum, PiWriteAccum, PrpListOp, SepMetaReadAccum,
    SepMetaWriteAccum, SglOp, WriteAccum,
};
use crate::controller::namespace::Namespace;
use crate::regs::{CompletionQueue, CtrlState, SubmissionQueue};

pub mod abort;
pub mod compare;
pub mod ctx;
pub mod dense_map;
pub mod device;
pub mod discovery_log;
pub mod dispatch;
pub mod events;
pub mod inflight;
pub mod namespace;
pub mod post;
pub mod prp;
pub mod queues;
pub mod setup;
pub mod shadow;
pub mod shadow_laws;
pub mod tick;
pub mod transfer;

verus! {

/// Slots for I/O queues; the identifiers run from 1 to this.
pub const IO_QUEUE_SLOT_CAPACITY: u16 = 256;

/// Slots for namespaces; the identifiers run from 1 to this.
pub const NAMESPACE_SLOT_CAPACITY: u32 = 8;

/// Queue depth unless configured otherwise.
pub const DEFAULT_MAX_QUEUE_ENTRIES: u32 = 128;

pub const MIN_MAX_QUEUE_ENTRIES: u32 = 2;

pub const MAX_MAX_QUEUE_ENTRIES: u32 = 65536;

/// A submission queue fetch in flight.
#[derive(Debug, Clone, Copy, PartialEq, Eq, Structural)]
pub struct FetchCtx {
    pub sq_id: u16,
    /// Entries asked for.
    pub count: u32,
    /// Slot of the first of them.
    pub start_slot: u32,
}

/// A read of a shadow doorbell in flight.
#[derive(Debug, Clone, Copy, PartialEq, Eq, Structural)]
pub struct ShadowPollCtx {
    pub qid: u16,
    pub is_cq: bool,
    /// How often the chain of reads has continued itself.
    pub iters: u32,
}

/// An entry of the error information log.
#[derive(Debug, Clone, Copy, PartialEq, Eq, Structural)]
pub struct ErrorLogEntry {
    /// The number of errors when the entry was made.
    pub error_count: u64,
    pub sq_id: u16,
    pub cid: u16,
    pub status_field: u16,
    pub param_loc: u16,
    pub lba: u64,
    pub nsid: u32,
}

/// An entry of the reservation notification log.
#[derive(Debug, Clone, Copy, PartialEq, Eq, Structural)]
pub struct ReservationNotification {
    pub log_page_count: u64,
    pub log_page_type: u8,
    pub nsid: u32,
}

/// A device self-test that is running.
#[derive(Debug, Clone, Copy, PartialEq, Eq, Structural)]
pub struct SelfTestInProgress {
    /// When it started, in nanoseconds.
    pub started_at: u64,
    /// Self-test code.
    pub stc: u8,
    pub total_seconds: u32,
    pub percent_complete: u8,
}

/// The last device self-test that ended.
#[derive(Debug, Clone, Copy, PartialEq, Eq, Structural)]
pub struct SelfTestCompleted {
    pub stc: u8,
    /// 0 = no error.
    pub result: u8,
    /// Power-on hours when it ended.
    pub completed_at_poh: u64,
}

/// A sanitize operation that is running.
#[derive(Debug, Clone, Copy, PartialEq, Eq, Structural)]
pub struct SanitizeState {
    /// When it started, in nanoseconds.
    pub started_at: u64,
    pub sanact: u8,
    pub total_seconds: u32,
    /// Progress as a fraction of 65535.
    pub percent_complete: u16,
}

/// Why the admin completion queue was not installed.
#[derive(Debug, Clone, Copy, PartialEq, Eq, Structural)]
pub enum AdminCqInstallError {
    /// There is one already, with another base or size.
    MismatchedParams { old_base_gpa: u64, old_size: u32, new_base_gpa: u64, new_size: u32 },
}

/// An asynchronous event request that waits for an event.
#[derive(Debug, Clone, Copy, PartialEq, Eq, Structural)]
pub struct Aer {
    pub cid: u16,
    pub sq_id: u16,
    pub cq_id: u16,
    /// The connection that it came from; 0 = none.
    pub conn_id: u32,
}

/// An NVMe controller.
pub struct NvmeController {
    /// Namespaces by identifier.
    pub namespaces: DenseMap<u32, Namespace>,
    pub cap: u64,
    pub vs: u32,
    pub intms: u32,
    pub intmc: u32,
    pub cc: u32,
    pub csts: u32,
    pub aqa: u32,
    pub asq: u64,
    pub acq: u64,
    pub bprsel: u32,
    pub bpmbl: u64,
    pub state: CtrlState,
    /// Submission queues by identifier; 0 is the admin queue.
    pub sqs: DenseMap<u16, SubmissionQueue>,
    /// Completion queues by identifier; 0 is the admin queue.
    pub cqs: DenseMap<u16, CompletionQueue>,
    /// Submission queue fetches by token.
    pub pending_fetches: HashMap<u64, FetchCtx>,
    /// Command transfers by token.
    pub pending_ios: HashMap<u64, PendingIo>,
    pub dual_prp_writes: HashMap<u64, WriteAccum>,
    pub next_op_id: u64,
    pub prp_list_ops: HashMap<u64, PrpListOp>,
    pub sgl_ops: HashMap<u64, SglOp>,
    pub compare_ops: HashMap<u64, CompareAccum>,
    pub pi_writes: HashMap<u64, PiWriteAccum>,
    pub pi_reads: HashMap<u64, PiReadAccum>,
    pub sep_meta_writes: HashMap<u64, SepMetaWriteAccum>,
    pub sep_meta_reads: HashMap<u64, SepMetaReadAccum>,
    /// The first command of a fused pair and its head pointer, by submission queue,
    /// until the second one comes.
    pub pending_fused: HashMap<u16, (Sqe, u16)>,
    /// Fetched commands: submission queue, head pointer after the command, command.
    pub sqe_inbox: Vec<(u16, u16, Sqe)>,
    pub stat_host_reads: u64,
    pub stat_host_writes: u64,
    pub stat_lba_read: u64,
    pub stat_lba_written: u64,
    /// When the controller was powered on, in nanoseconds.
    pub power_on_instant: u64,
    pub stat_num_err_log_entries: u64,
    /// The connection whose admin command is being dispatched; 0 = none.
    pub current_dispatch_conn_id: u32,
    /// Asynchronous event requests, oldest first.
    pub aen_pending: VecDeque<Aer>,
    pub discovery_portals: Vec<DiscoveryPortal>,
    pub discovery_gen_ctr: u64,
    pub features: HashMap<u8, u32>,
    pub saved_features: HashMap<u8, u32>,
    pub granted_io_queues: u16,
    pub io_queue_pairs: u16,
    pub max_namespaces: u32,
    /// The number of errors that the host was last told of.
    pub aen_last_err_count: u64,
    pub self_test_in_progress: Option<SelfTestInProgress>,
    pub self_test_last: Option<SelfTestCompleted>,
    /// Errors, oldest first.
    pub error_log: VecDeque<ErrorLogEntry>,
    pub fw_download_buf: Vec<u8>,
    pub fw_active_slot: u8,
    pub fw_slot_revisions: Vec<String>,
    pub fw_next_active_slot: u8,
    pub sanitize: Option<SanitizeState>,
    /// 0 = never, 1 = success, 2 = in progress, 3 = failed.
    pub sanitize_last_status: u8,
    /// Where the host keeps the shadow doorbells; 0 = nowhere.
    pub doorbell_shadow_gpa: u64,
    /// Where the host looks for the event indices; 0 = nowhere.
    pub doorbell_event_idx_gpa: u64,
    /// Reads of shadow doorbells by token.
    pub pending_shadow_polls: HashMap<u64, ShadowPollCtx>,
    /// Tokens of event index writes.
    pub pending_eventidx_writes: HashSet<u64>,
    /// Doorbells whose shadow is being read; see `poll_key`.
    pub shadow_poll_inflight: HashSet<u32>,
    /// Doorbells that were rung while their shadow was being read.
    pub shadow_ring_pending: HashSet<u32>,
    /// The tail last written to the doorbell register of a submission queue.
    pub last_mmio_sq_doorbell: HashMap<u16, u32>,
    /// The event index last written for a submission queue.
    pub last_eventidx_sq: HashMap<u16, u32>,
    /// How often a shadow was ahead of the doorbell register.
    pub dbbuf_shadow_ahead_count: u64,
    pub locked_admin_opcodes: HashSet<u8>,
    pub crypto_gen: u32,
    /// Reservation notifications, oldest first.
    pub reservation_notification_log: VecDeque<ReservationNotification>,
    pub reservation_notification_count: u64,
    /// Asymmetric namespace access state: 1 = optimized.
    pub ana_state: u8,
    pub ana_change_count: u64,
    pub current_ps: u8,
    /// Interrupt aggregation time in units of 100 microseconds; 0 = off.
    pub irq_aggr_time: u8,
    /// Interrupt aggregation threshold, zero-based.
    pub irq_aggr_threshold: u8,
    pub host_id_lo: u64,
    pub host_id_hi: u64,
    pub vid: u16,
    pub ssvid: u16,
    pub msix_count: u16,
}

impl NvmeController {
    /// The tables have a slot for every identifier and no more.
    pub open spec fn wf(&self) -> bool {
        &&& self.namespaces.capacity() == NAMESPACE_SLOT_CAPACITY + 1
        &&& self.sqs.capacity() == IO_QUEUE_SLOT_CAPACITY + 1
        &&& self.cqs.capacity() == IO_QUEUE_SLOT_CAPACITY + 1
    }
}

} // verus!
