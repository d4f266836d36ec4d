//! Commands that wait for a transfer to end.
use std::collections::HashMap;
use vstd::prelude::*;

use crate::cmd::Sqe;
use crate::controller::namespace::ZoneState;

verus! {

broadcast use vstd::std_specs::hash::group_hash_axioms;

/// A transfer of a command, held under its token until it ends.
#[derive(Debug)]
pub struct PendingIo {
    pub sq_id: u16,
    pub cid: u16,
    pub sq_head: u16,
    pub cq_id: u16,
    /// 0 where the payload belongs to no namespace.
    pub nsid: u32,
    pub op: PendingOp,
}

/// What to do when a transfer ends.
#[derive(Debug)]
pub enum PendingOp {
    /// Write: the data arrived through PRP1.
    NvmWriteDmaRead { lba: u64, num_blocks: u32 },
    /// Write: one of two pages arrived.
    NvmWriteDualPrp { op_id: u64, is_prp1: bool },
    /// The data reached the host: complete the command.
    NvmReadDmaWrite { num_blocks: u32 },
    /// The first of two pages reached the host: wait for the second.
    NvmReadDualPrpSiblingHalf,
    /// Write: the PRP list arrived.
    NvmWritePrpListFetch { op_id: u64 },
    /// Write: a page named by the PRP list arrived.
    NvmWritePrpListData { op_id: u64, page_idx: u32 },
    /// The PRP list arrived: write a page to each address.
    NvmReadPrpListFetch { op_id: u64 },
    /// A page named by the PRP list reached the host.
    NvmReadPrpListData { op_id: u64, page_idx: u32 },
    /// An SGL segment arrived.
    NvmSglFetch { op_id: u64, is_last: bool },
    /// The data of an SGL descriptor was transferred.
    NvmSglData { op_id: u64, frag_idx: u32 },
    /// Compare: the data arrived through PRP1.
    NvmCompareSinglePrp { lba: u64, num_blocks: u32 },
    /// Compare of a fused pair: its outcome decides whether the write runs.
    NvmCompareSinglePrpFused {
        lba: u64,
        num_blocks: u32,
        write_sqe: Sqe,
        write_sq_head: u16,
        write_sq_id: u16,
    },
    /// A piece of a firmware image arrived.
    AdminFwDownloadChunk { offset_bytes: u32 },
    /// The keys of a reservation command arrived.
    NvmReservationCmd { op_kind: ReservationKind, action: u8, rtype: u8, cptpl: u8 },
    /// The attributes of a namespace to be created arrived.
    AdminNsCreate,
    /// Compare: one of two pages arrived.
    NvmCompareDualPrp { op_id: u64, is_prp1: bool },
    /// Compare: the PRP list arrived.
    NvmComparePrpListFetch { op_id: u64 },
    /// Compare: a page named by the PRP list arrived.
    NvmComparePrpListData { op_id: u64, page_idx: u32 },
    /// A host identifier arrived.
    AdminSetHostIdentifier { exhid: bool },
    /// A controller list arrived.
    AdminNsAttachmentList { sel: u8 },
    /// Write with protection information: the data arrived through PRP1.
    NvmWritePi { lba: u64, num_blocks: u32 },
    /// Write with separate metadata: a page of data arrived.
    SepMetaWriteData { op_id: u64, page_idx: u32 },
    /// Write with separate metadata: the metadata arrived.
    SepMetaWriteMeta { op_id: u64 },
    /// Read with separate metadata: a part reached the host.
    SepMetaReadDone { op_id: u64 },
    /// Read with protection information: the data reached the host.
    NvmReadPiDmaWrite { num_blocks: u32 },
    /// Zone append: the data arrived.
    NvmZoneAppend {
        zone_idx: usize,
        assigned_lba: u64,
        prev_wp: u64,
        prev_state: ZoneState,
        num_blocks: u32,
    },
    /// Write with protection information: a page arrived.
    NvmWritePiMulti { op_id: u64, page_idx: u32 },
    /// Write with protection information: the PRP list arrived.
    NvmWritePiListFetch { op_id: u64 },
    /// Read with protection information: the PRP list arrived.
    NvmReadPiListFetch { op_id: u64 },
    /// Read with protection information: a page reached the host.
    NvmReadPiListData { op_id: u64, page_idx: u32 },
    /// Copy: the source ranges arrived.
    NvmCopyFetchRanges { sdlba: u64, num_ranges: u32 },
}

#[derive(Debug, Clone, Copy, PartialEq, Eq, Structural)]
pub enum ReservationKind {
    Register,
    Acquire,
    Release,
}

/// A write whose data comes in two pages.
#[derive(Debug)]
pub struct WriteAccum {
    pub sq_id: u16,
    pub cid: u16,
    pub sq_head: u16,
    pub cq_id: u16,
    pub nsid: u32,
    pub lba: u64,
    pub num_blocks: u32,
    pub prp1_data: Option<Vec<u8>>,
    pub prp2_data: Option<Vec<u8>>,
}

/// A compare whose data comes in more than one page.
#[derive(Debug)]
pub struct CompareAccum {
    pub sq_id: u16,
    pub cid: u16,
    pub sq_head: u16,
    pub cq_id: u16,
    pub nsid: u32,
    pub lba: u64,
    pub num_blocks: u32,
    pub prp1_data: Option<Vec<u8>>,
    pub prp2_data: Option<Vec<u8>>,
    pub data_pages: Vec<Option<Vec<u8>>>,
    pub total_pages: u32,
    pub pages_done: u32,
    pub list_entries: Option<Vec<u64>>,
}

/// A write with protection information that comes in more than one page.
#[derive(Debug)]
pub struct PiWriteAccum {
    pub nsid: u32,
    pub slba: u64,
    pub num_blocks: u32,
    pub data_bytes_total: usize,
    pub received: Vec<u8>,
    pub pages_done: u32,
    pub pages_total: u32,
    pub sq_id: u16,
    pub cid: u16,
    pub sq_head: u16,
    pub cq_id: u16,
    /// The PRP list has not arrived yet.
    pub prp_list_pending: bool,
}

/// A read with protection information that goes out in more than one page.
#[derive(Debug)]
pub struct PiReadAccum {
    pub nsid: u32,
    pub num_blocks: u32,
    pub data_only: Vec<u8>,
    pub pages_done: u32,
    pub pages_total: u32,
    pub sq_id: u16,
    pub cid: u16,
    pub sq_head: u16,
    pub cq_id: u16,
}

/// A transfer whose pages after the first are named by a PRP list.
#[derive(Debug)]
pub struct PrpListOp {
    pub sq_id: u16,
    pub cid: u16,
    pub sq_head: u16,
    pub cq_id: u16,
    pub nsid: u32,
    pub lba: u64,
    pub num_blocks: u32,
    pub is_write: bool,
    pub prp1_gpa: u64,
    pub list_entries: Option<Vec<u64>>,
    pub total_pages: u32,
    pub pages_done: u32,
    pub data_pages: Vec<Option<Vec<u8>>>,
}

/// Segments that an SGL may have.
pub const MAX_SGL_SEGMENTS: u32 = 64;

/// A transfer described by an SGL.
#[derive(Debug)]
pub struct SglOp {
    pub sq_id: u16,
    pub cid: u16,
    pub sq_head: u16,
    pub cq_id: u16,
    pub nsid: u32,
    pub lba: u64,
    pub num_blocks: u32,
    pub is_write: bool,
    pub sector_bytes: u64,
    pub expected_bytes: u64,
    pub data: Vec<u8>,
    pub frags: Vec<SglPlanFrag>,
    pub walk_offset: u64,
    pub walk_segments: u32,
    pub transfers_done: u32,
    pub transfers_total: u32,
}

/// A piece of an SGL transfer.
#[derive(Debug, Clone, Copy, PartialEq, Eq, Structural)]
pub struct SglPlanFrag {
    pub address: u64,
    pub stream_offset: u64,
    pub length: u32,
}

/// A write whose metadata comes in a buffer of its own.
#[derive(Debug)]
pub struct SepMetaWriteAccum {
    pub sq_id: u16,
    pub cid: u16,
    pub sq_head: u16,
    pub cq_id: u16,
    pub nsid: u32,
    pub lba: u64,
    pub num_blocks: u32,
    pub data_pages: Vec<Option<Vec<u8>>>,
    pub data_remaining: u32,
    pub meta: Option<Vec<u8>>,
}

/// A read whose metadata goes to a buffer of its own.
#[derive(Debug)]
pub struct SepMetaReadAccum {
    pub sq_id: u16,
    pub cid: u16,
    pub sq_head: u16,
    pub cq_id: u16,
    pub remaining: u32,
    pub num_blocks: u32,
}

/// Something held for a command that has not completed.
pub trait AbortableOp {
    /// Submission queue and identifier of the command.
    spec fn command(&self) -> (u16, u16);

    /// Completion queue of the command and the head pointer its completion reports.
    spec fn target(&self) -> (u16, u16);

    fn abort_match(&self) -> (r: (u16, u16))
        ensures
            r == self.command(),
    ;

    fn abort_target(&self) -> (r: (u16, u16))
        ensures
            r == self.target(),
    ;
}

impl AbortableOp for WriteAccum {
    open spec fn command(&self) -> (u16, u16) {
        (self.sq_id, self.cid)
    }

    open spec fn target(&self) -> (u16, u16) {
        (self.cq_id, self.sq_head)
    }

    fn abort_match(&self) -> (r: (u16, u16)) {
        (self.sq_id, self.cid)
    }

    fn abort_target(&self) -> (r: (u16, u16)) {
        (self.cq_id, self.sq_head)
    }
}

impl AbortableOp for CompareAccum {
    open spec fn command(&self) -> (u16, u16) {
        (self.sq_id, self.cid)
    }

    open spec fn target(&self) -> (u16, u16) {
        (self.cq_id, self.sq_head)
    }

    fn abort_match(&self) -> (r: (u16, u16)) {
        (self.sq_id, self.cid)
    }

    fn abort_target(&self) -> (r: (u16, u16)) {
        (self.cq_id, self.sq_head)
    }
}

impl AbortableOp for PiWriteAccum {
    open spec fn command(&self) -> (u16, u16) {
        (self.sq_id, self.cid)
    }

    open spec fn target(&self) -> (u16, u16) {
        (self.cq_id, self.sq_head)
    }

    fn abort_match(&self) -> (r: (u16, u16)) {
        (self.sq_id, self.cid)
    }

    fn abort_target(&self) -> (r: (u16, u16)) {
        (self.cq_id, self.sq_head)
    }
}

impl AbortableOp for PiReadAccum {
    open spec fn command(&self) -> (u16, u16) {
        (self.sq_id, self.cid)
    }

    open spec fn target(&self) -> (u16, u16) {
        (self.cq_id, self.sq_head)
    }

    fn abort_match(&self) -> (r: (u16, u16)) {
        (self.sq_id, self.cid)
    }

    fn abort_target(&self) -> (r: (u16, u16)) {
        (self.cq_id, self.sq_head)
    }
}

impl AbortableOp for PrpListOp {
    open spec fn command(&self) -> (u16, u16) {
        (self.sq_id, self.cid)
    }

    open spec fn target(&self) -> (u16, u16) {
        (self.cq_id, self.sq_head)
    }

    fn abort_match(&self) -> (r: (u16, u16)) {
        (self.sq_id, self.cid)
    }

    fn abort_target(&self) -> (r: (u16, u16)) {
        (self.cq_id, self.sq_head)
    }
}

impl AbortableOp for SglOp {
    open spec fn command(&self) -> (u16, u16) {
        (self.sq_id, self.cid)
    }

    open spec fn target(&self) -> (u16, u16) {
        (self.cq_id, self.sq_head)
    }

    fn abort_match(&self) -> (r: (u16, u16)) {
        (self.sq_id, self.cid)
    }

    fn abort_target(&self) -> (r: (u16, u16)) {
        (self.cq_id, self.sq_head)
    }
}

impl AbortableOp for SepMetaWriteAccum {
    open spec fn command(&self) -> (u16, u16) {
        (self.sq_id, self.cid)
    }

    open spec fn target(&self) -> (u16, u16) {
        (self.cq_id, self.sq_head)
    }

    fn abort_match(&self) -> (r: (u16, u16)) {
        (self.sq_id, self.cid)
    }

    fn abort_target(&self) -> (r: (u16, u16)) {
        (self.cq_id, self.sq_head)
    }
}

impl AbortableOp for SepMetaReadAccum {
    open spec fn command(&self) -> (u16, u16) {
        (self.sq_id, self.cid)
    }

    open spec fn target(&self) -> (u16, u16) {
        (self.cq_id, self.sq_head)
    }

    fn abort_match(&self) -> (r: (u16, u16)) {
        (self.sq_id, self.cid)
    }

    fn abort_target(&self) -> (r: (u16, u16)) {
        (self.cq_id, self.sq_head)
    }
}

impl AbortableOp for PendingIo {
    open spec fn command(&self) -> (u16, u16) {
        (self.sq_id, self.cid)
    }

    open spec fn target(&self) -> (u16, u16) {
        (self.cq_id, self.sq_head)
    }

    fn abort_match(&self) -> (r: (u16, u16)) {
        (self.sq_id, self.cid)
    }

    fn abort_target(&self) -> (r: (u16, u16)) {
        (self.cq_id, self.sq_head)
    }
}

/// Takes out an entry held for command `cid` of queue `sqid`, if there is one, and
/// tells where its completion goes. Which entry goes, where several match, is open.
pub fn abort_scan<T: AbortableOp>(map: &mut HashMap<u64, T>, sqid: u16, cid: u16) -> (r: Option<
    (u16, u16),
>)
    ensures
        scanned(old(map)@, final(map)@, (sqid, cid), r),
{
    let mut found: Option<u64> = None;
    for (k, e) in it: map.iter()
        invariant
            found is None ==> forall|i: int|
                0 <= i < it.index() ==> (#[trigger] it.seq()[i]).1.command() != (sqid, cid),
            found is Some ==> map@.contains_key(found->0) && map@[found->0].command() == (
                sqid,
                cid,
            ),
    {
        if found.is_none() {
            let m = e.abort_match();
            if m.0 == sqid && m.1 == cid {
                found = Some(*k);
            }
        }
    }
    match found {
        None => None,
        Some(tok) => {
            match map.remove(&tok) {
                Some(e) => Some(e.abort_target()),
                None => None,
            }
        },
    }
}

/// `r` and `after` are what a scan of `before` for command `c` may give.
pub open spec fn scanned<T: AbortableOp>(
    before: Map<u64, T>,
    after: Map<u64, T>,
    c: (u16, u16),
    r: Option<(u16, u16)>,
) -> bool {
    match r {
        None => after == before && forall|t: u64| #[trigger]
            before.contains_key(t) ==> before[t].command() != c,
        Some(target) => exists|t: u64| #[trigger]
            before.contains_key(t) && before[t].command() == c && before[t].target() == target
                && after == before.remove(t),
    }
}

/// `before` without the entries of command `c`.
pub open spec fn without_command<T: AbortableOp>(before: Map<u64, T>, c: (u16, u16)) -> Map<u64, T> {
    before.restrict(Set::new(|t: u64| before.contains_key(t) && before[t].command() != c))
}

/// `r` and `after` are what a sweep of `before` for command `c` may give.
pub open spec fn swept<T: AbortableOp>(
    before: Map<u64, T>,
    after: Map<u64, T>,
    c: (u16, u16),
    r: Option<(u16, u16)>,
) -> bool {
    &&& after == without_command(before, c)
    &&& match r {
        None => forall|t: u64| #[trigger] before.contains_key(t) ==> before[t].command() != c,
        Some(target) => exists|t: u64| #[trigger]
            before.contains_key(t) && before[t].command() == c && before[t].target() == target,
    }
}

/// Takes out every entry held for command `cid` of queue `sqid` and tells where the
/// completion of one of them goes.
pub fn sweep_command<T: AbortableOp>(map: &mut HashMap<u64, T>, sqid: u16, cid: u16) -> (r: Option<
    (u16, u16),
>)
    ensures
        swept(old(map)@, final(map)@, (sqid, cid), r),
{
    let ghost before = map@;
    let ghost c = (sqid, cid);
    let mut target: Option<(u16, u16)> = None;
    let mut tokens: Vec<u64> = Vec::new();
    for (k, e) in it: map.iter()
        invariant
            map@ == before,
            c == (sqid, cid),
            forall|i: int|
                0 <= i < it.index() && (#[trigger] it.seq()[i]).1.command() == c ==> tokens@.contains(
                    *it.seq()[i].0,
                ),
            forall|j: int|
                0 <= j < tokens@.len() ==> before.contains_key(#[trigger] tokens@[j])
                    && before[tokens@[j]].command() == c,
            target is None <==> tokens@.len() == 0,
            target is Some ==> before.contains_key(tokens@[0]) && before[tokens@[0]].target()
                == target->0,
    {
        let m = e.abort_match();
        if m.0 == sqid && m.1 == cid {
            if target.is_none() {
                target = Some(e.abort_target());
            }
            let ghost held = tokens@;
            tokens.push(*k);
            assert forall|t: u64| held.contains(t) implies tokens@.contains(t) by {
                let j = choose|j: int| 0 <= j < held.len() && held[j] == t;
                assert(tokens@[j] == t);
            }
            assert(tokens@[held.len() as int] == *k);
        }
    }
    assert forall|t: u64| #[trigger] before.contains_key(t) && before[t].command() == c implies tokens@.contains(t) by {
    }
    let mut i: usize = 0;
    while i < tokens.len()
        invariant
            i <= tokens@.len(),
            forall|t: u64| #[trigger]
                map@.contains_key(t) <==> before.contains_key(t) && !tokens@.take(i as int).contains(
                    t,
                ),
            forall|t: u64| #[trigger] map@.contains_key(t) ==> map@[t] == before[t],
        decreases tokens@.len() - i,
    {
        let tok: u64 = tokens[i];
        let _ = map.remove(&tok);
        assert(tokens@.take(i as int).push(tok) =~= tokens@.take(i + 1));
        assert forall|t: u64| tokens@.take(i + 1).contains(t) <==> tokens@.take(i as int).contains(t)
            || t == tok by {
            if tokens@.take(i as int).contains(t) {
                let j = choose|j: int| 0 <= j < i && tokens@.take(i as int)[j] == t;
                assert(tokens@.take(i + 1)[j] == t);
            }
            assert(tokens@.take(i + 1)[i as int] == tok);
        }
        i += 1;
    }
    assert(tokens@.take(tokens@.len() as int) =~= tokens@);
    assert(map@ =~= without_command(before, c));
    target
}

} // verus!
