//! Comparing host data with the backing store, and the atomic compare-and-write.
//!
//! A namespace that is mapped is read and written through the mapping. Where the
//! mapping does not cover a range, the bytes come from the backing file, which the
//! caller reads and writes: it hands in what it read, and is told what to write.
use vstd::prelude::*;

use crate::bytes;
use crate::cmd;
use crate::cmd::nvm_opc;
use crate::cmd::sc;
use crate::cmd::{Cqe, Sqe};
use crate::controller::dispatch;
use crate::controller::events;
use crate::controller::namespace::Namespace;
use crate::controller::{ErrorLogEntry, NvmeController};
use crate::mapping;
use crate::regs::NVME_PAGE_SIZE;

verus! {

impl Namespace {
    /// Data bytes in a block.
    pub open spec fn block(&self) -> int {
        vstd::arithmetic::power2::pow2(self.lbads as nat) as int
    }

    /// The bytes from `offset` on, `len` of them: from the mapping where it covers
    /// them, and else what was read from the file, `None` where that failed.
    pub open spec fn backing(&self, offset: int, len: int, file: Option<Seq<u8>>) -> Option<Seq<u8>> {
        if self.mapped(offset, len) {
            Some(self.media_at(offset, len))
        } else {
            file
        }
    }

    /// Every block has an address in the backing store.
    pub open spec fn wf(&self) -> bool {
        self.lbads < 64 && self.total_lba * self.block() <= u64::MAX
    }
}

/// The bytes of `v`, if there are any.
pub open spec fn bytes_of(v: Option<Vec<u8>>) -> Option<Seq<u8>> {
    match v {
        Some(d) => Some(d@),
        None => None,
    }
}

/// The data that came in one or two parts, of which at most `len` bytes count.
pub open spec fn host_data(prp1: Vec<u8>, prp2: Option<Vec<u8>>, len: int) -> Seq<u8> {
    let all = match prp2 {
        Some(d) => prp1@ + d@,
        None => prp1@,
    };
    if all.len() > len {
        all.take(len)
    } else {
        all
    }
}

/// What an atomic compare-and-write does.
pub enum CasOutcome {
    /// Nothing: it is refused with this status.
    Refused(u16),
    /// Nothing: the backing store could not be read.
    ReadFailed,
    /// Nothing: the data differs.
    Different,
    /// The data is the same, and is replaced in the mapping.
    Replaced,
    /// The data is the same, and has to be replaced in the file.
    ReplaceInFile,
}

/// What became of an atomic compare-and-write.
#[derive(Debug, Clone, Copy, PartialEq, Eq, Structural)]
pub enum FusedCas {
    /// It is over: the completions of the two commands.
    Complete { compare: Cqe, write: Cqe },
    /// The data is the same: the new data is to be written to the backing file of
    /// namespace `nsid` at `offset`, and the outcome to be reported.
    WriteFile { nsid: u32, offset: u64 },
}

/// Why the pair is refused before any data is looked at; `None` where it is not.
pub open spec fn cas_refusal(
    namespaces: Map<u32, Namespace>,
    compare: Sqe,
    write: Sqe,
    compare_len: nat,
    write_len: nat,
) -> Option<u16> {
    let nsid = compare.nsid;
    let ns = namespaces[nsid];
    let len = compare.spec_nlb() * ns.block();
    if compare.spec_opcode() != nvm_opc::COMPARE || !dispatch::fused_pair(compare, write) {
        Some(sc::INVALID_FIELD)
    } else if !namespaces.contains_key(nsid) {
        Some(sc::INVALID_NAMESPACE)
    } else if ns.not_ready {
        Some(sc::NAMESPACE_NOT_READY)
    } else if !dispatch::fused_supported(ns, compare.spec_nlb()) || compare_len != len || write_len
        != len {
        Some(sc::INVALID_FIELD)
    } else if compare.spec_slba() + compare.spec_nlb() > ns.total_lba {
        Some(sc::LBA_OUT_OF_RANGE)
    } else {
        None
    }
}

/// See `CasOutcome`.
pub open spec fn cas_outcome(
    namespaces: Map<u32, Namespace>,
    compare: Sqe,
    write: Sqe,
    compare_data: Seq<u8>,
    write_data: Seq<u8>,
    file: Option<Seq<u8>>,
) -> CasOutcome {
    let ns = namespaces[compare.nsid];
    let offset = compare.spec_slba() * ns.block();
    match cas_refusal(namespaces, compare, write, compare_data.len(), write_data.len()) {
        Some(status) => CasOutcome::Refused(status),
        None => match ns.backing(offset, compare_data.len() as int, file) {
            None => CasOutcome::ReadFailed,
            Some(b) => if b != compare_data {
                CasOutcome::Different
            } else if ns.mapped(offset, write_data.len() as int) {
                CasOutcome::Replaced
            } else {
                CasOutcome::ReplaceInFile
            },
        },
    }
}

/// The completions of a pair that ends with `status`.
pub open spec fn pair_cqes(compare: Sqe, write: Sqe, sq_id: u16, phase: u8, status: u16) -> (Cqe, Cqe) {
    (
        cmd::cqe_of(compare.spec_cid(), sq_id, 0, phase, status),
        cmd::cqe_of(write.spec_cid(), sq_id, 0, phase, status),
    )
}

/// Both commands of a pair end with `status`.
pub open spec fn cas_complete(c: (Cqe, Cqe)) -> FusedCas {
    FusedCas::Complete { compare: c.0, write: c.1 }
}

impl NvmeController {
    /// The counters can count a read of `n` blocks.
    pub open spec fn can_count_read(&self, n: int) -> bool {
        self.stat_host_reads < u64::MAX && self.stat_lba_read + n <= u64::MAX
    }

    /// The counters can count a read and a write of `n` blocks.
    pub open spec fn can_count_pair(&self, n: int) -> bool {
        &&& self.can_count_read(n)
        &&& self.stat_host_writes < u64::MAX
        &&& self.stat_lba_written + n <= u64::MAX
    }

    /// The counter can count an error.
    pub open spec fn can_count_error(&self) -> bool {
        self.stat_num_err_log_entries < u64::MAX
    }

    /// `self` is `before` with one error more in its log, and counted.
    pub open spec fn error_logged(
        &self,
        before: NvmeController,
        sq_id: u16,
        cid: u16,
        status: u16,
        lba: u64,
        nsid: u32,
    ) -> bool {
        &&& self.stat_num_err_log_entries == before.stat_num_err_log_entries + 1
        &&& self.error_log@ == events::last_of(
            before.error_log@.push(
                ErrorLogEntry {
                    error_count: (before.stat_num_err_log_entries + 1) as u64,
                    sq_id,
                    cid,
                    status_field: sc::status_field(status),
                    param_loc: 0,
                    lba,
                    nsid,
                },
            ),
            events::ERROR_LOG_ENTRIES as nat,
        )
        &&& *self == (NvmeController {
            stat_num_err_log_entries: self.stat_num_err_log_entries,
            error_log: self.error_log,
            ..before
        })
    }

    fn log_error(&mut self, sq_id: u16, cid: u16, status: u16, lba: u64, nsid: u32)
        requires
            old(self).can_count_error(),
        ensures
            final(self).error_logged(*old(self), sq_id, cid, status, lba, nsid),
    {
        self.stat_num_err_log_entries = self.stat_num_err_log_entries + 1;
        self.push_error_log(sq_id, cid, sc::sf_of(status), lba, nsid);
    }

    /// Ends a compare of `num_blocks` blocks from `lba` on whose data came in one or
    /// two parts, of which only as much counts as the blocks hold. `file_data` is what
    /// the backing file holds there, `None` where it could not be read; it matters
    /// only where the mapping does not cover the blocks.
    pub fn compare_finalize(
        &mut self,
        nsid: u32,
        lba: u64,
        num_blocks: u32,
        host_prp1: Vec<u8>,
        host_prp2: Option<Vec<u8>>,
        file_data: Option<Vec<u8>>,
        cid: u16,
        sq_id: u16,
        sq_head: u16,
        cq_id: u16,
    ) -> (r: Cqe)
        requires
            old(self).namespaces@.contains_key(nsid) ==> ({
                let ns = old(self).namespaces@[nsid];
                &&& ns.lbads < 64
                &&& ns.pi_type == 0
                &&& num_blocks * ns.block() <= usize::MAX
                &&& lba * ns.block() <= u64::MAX
                &&& if ns.backing(
                    lba * ns.block(),
                    num_blocks * ns.block(),
                    bytes_of(file_data),
                ) == Some(host_data(host_prp1, host_prp2, num_blocks * ns.block())) {
                    old(self).can_count_read(num_blocks as int)
                } else {
                    old(self).can_count_error()
                }
            }),
        ensures
            ({
                let phase = old(self).phase(cq_id);
                let ns = old(self).namespaces@[nsid];
                let len = num_blocks * ns.block();
                let host = host_data(host_prp1, host_prp2, len);
                let file = bytes_of(file_data);
                if !old(self).namespaces@.contains_key(nsid) {
                    &&& r == cmd::cqe_of(cid, sq_id, sq_head, phase, sc::INVALID_NAMESPACE)
                    &&& *final(self) == *old(self)
                } else {
                    match ns.backing(lba * ns.block(), len, file) {
                        None => {
                            &&& r == cmd::cqe_of(
                                cid,
                                sq_id,
                                sq_head,
                                phase,
                                sc::DATA_TRANSFER_ERROR,
                            )
                            &&& final(self).error_logged(
                                *old(self),
                                sq_id,
                                cid,
                                sc::DATA_TRANSFER_ERROR,
                                lba,
                                nsid,
                            )
                        },
                        Some(b) => if b == host {
                            &&& r == cmd::cqe_of(cid, sq_id, sq_head, phase, 0)
                            &&& *final(self) == (NvmeController {
                                stat_host_reads: (old(self).stat_host_reads + 1) as u64,
                                stat_lba_read: (old(self).stat_lba_read + num_blocks) as u64,
                                ..*old(self)
                            })
                        } else {
                            &&& r == cmd::cqe_of(cid, sq_id, sq_head, phase, sc::COMPARE_FAILURE)
                            &&& final(self).error_logged(
                                *old(self),
                                sq_id,
                                cid,
                                sc::COMPARE_FAILURE,
                                lba,
                                nsid,
                            )
                        },
                    }
                }
            }),
    {
        let phase: u8 = self.phase_of(cq_id);
        let mut host = host_prp1;
        let outcome: Option<bool> = match self.namespaces.get(&nsid) {
            None => {
                return Cqe::error(cid, sq_id, sq_head, phase, sc::INVALID_NAMESPACE);
            },
            Some(ns) => {
                let block: u64 = ns.data_bytes();
                let len: usize = (num_blocks as u64 * block) as usize;
                match host_prp2 {
                    Some(mut extra) => {
                        host.append(&mut extra);
                    },
                    None => {},
                }
                host.truncate(len);
                assert(host@ =~= host_data(host_prp1, host_prp2, len as int));
                ns.same_as_backing(lba * block, len, host.as_slice(), &file_data)
            },
        };
        match outcome {
            None => {
                self.log_error(sq_id, cid, sc::DATA_TRANSFER_ERROR, lba, nsid);
                Cqe::error(cid, sq_id, sq_head, phase, sc::DATA_TRANSFER_ERROR)
            },
            Some(true) => {
                self.stat_host_reads = self.stat_host_reads + 1;
                self.stat_lba_read = self.stat_lba_read + num_blocks as u64;
                Cqe::success(cid, sq_id, sq_head, phase)
            },
            Some(false) => {
                self.log_error(sq_id, cid, sc::COMPARE_FAILURE, lba, nsid);
                Cqe::error(cid, sq_id, sq_head, phase, sc::COMPARE_FAILURE)
            },
        }
    }

    /// The refusal of a pair before any data is looked at; see `cas_refusal`.
    fn check_cas(&self, compare_sqe: Sqe, write_sqe: Sqe, compare_len: usize, write_len: usize) -> (r:
        Option<u16>)
        ensures
            r == cas_refusal(
                self.namespaces@,
                compare_sqe,
                write_sqe,
                compare_len as nat,
                write_len as nat,
            ),
    {
        let slba: u64 = compare_sqe.slba();
        let nlb: u64 = compare_sqe.nlb() as u64;
        if compare_sqe.opcode() != nvm_opc::COMPARE || write_sqe.opcode() != nvm_opc::WRITE
            || write_sqe.nsid != compare_sqe.nsid || write_sqe.slba() != slba || write_sqe.nlb()
            != compare_sqe.nlb() {
            return Some(sc::INVALID_FIELD);
        }
        match self.namespaces.get(&compare_sqe.nsid) {
            None => Some(sc::INVALID_NAMESPACE),
            Some(ns) => {
                if ns.not_ready {
                    return Some(sc::NAMESPACE_NOT_READY);
                }
                if !ns.is_plain() {
                    return Some(sc::INVALID_FIELD);
                }
                let block: u64 = ns.data_bytes();
                proof {
                    vstd::arithmetic::power2::lemma2_to64();
                    assert(nlb * block <= 0x1000_0000) by (nonlinear_arith)
                        requires
                            nlb <= 0x1_0000,
                            block <= 4096,
                    ;
                }
                let len: u64 = nlb * block;
                if len > NVME_PAGE_SIZE || compare_len as u64 != len || write_len as u64 != len {
                    return Some(sc::INVALID_FIELD);
                }
                match slba.checked_add(nlb) {
                    Some(end) => if end > ns.total_lba {
                        Some(sc::LBA_OUT_OF_RANGE)
                    } else {
                        None
                    },
                    None => Some(sc::LBA_OUT_OF_RANGE),
                }
            },
        }
    }

    /// Compares the blocks that the pair names with `compare_data` and, where they are
    /// the same, replaces them by `write_data`, in one step. `file_data` is what the
    /// backing file holds there, `None` where it could not be read; it matters only
    /// where the mapping does not cover the blocks.
    pub fn nvme_fused_cas(
        &mut self,
        sq_id: u16,
        cq_id: u16,
        compare_sqe: Sqe,
        write_sqe: Sqe,
        compare_data: &[u8],
        write_data: &[u8],
        file_data: Option<Vec<u8>>,
    ) -> (r: FusedCas)
        requires
            cas_refusal(
                old(self).namespaces@,
                compare_sqe,
                write_sqe,
                compare_data@.len(),
                write_data@.len(),
            ) is None ==> old(self).namespaces@[compare_sqe.nsid].wf(),
            ({
                let outcome = cas_outcome(
                    old(self).namespaces@,
                    compare_sqe,
                    write_sqe,
                    compare_data@,
                    write_data@,
                    bytes_of(file_data),
                );
                &&& outcome is Different ==> old(self).can_count_error()
                &&& outcome is Replaced ==> old(self).can_count_pair(compare_sqe.spec_nlb())
            }),
        ensures
            ({
                let nsid = compare_sqe.nsid;
                let ns = old(self).namespaces@[nsid];
                let offset = compare_sqe.spec_slba() * ns.block();
                let ended = |status: u16|
                    cas_complete(
                        pair_cqes(compare_sqe, write_sqe, sq_id, old(self).phase(cq_id), status),
                    );
                match cas_outcome(
                    old(self).namespaces@,
                    compare_sqe,
                    write_sqe,
                    compare_data@,
                    write_data@,
                    bytes_of(file_data),
                ) {
                    CasOutcome::Refused(status) => r == ended(status) && *final(self) == *old(self),
                    CasOutcome::ReadFailed => r == ended(sc::DATA_TRANSFER_ERROR) && *final(self)
                        == *old(self),
                    CasOutcome::Different => r == ended(sc::COMPARE_FAILURE) && final(self).error_logged(
                        *old(self),
                        sq_id,
                        compare_sqe.spec_cid(),
                        sc::COMPARE_FAILURE,
                        compare_sqe.spec_slba(),
                        nsid,
                    ),
                    CasOutcome::Replaced => {
                        &&& r == ended(0)
                        &&& final(self).namespaces@ == old(self).namespaces@.insert(
                            nsid,
                            final(self).namespaces@[nsid],
                        )
                        &&& final(self).namespaces@[nsid] == (Namespace {
                            mmap: final(self).namespaces@[nsid].mmap,
                            ..ns
                        })
                        &&& final(self).namespaces@[nsid].media() == Some(
                            mapping::overwritten(ns.media()->0, offset, write_data@),
                        )
                        &&& final(self).pair_counted(*old(self), compare_sqe)
                    },
                    CasOutcome::ReplaceInFile => r == (FusedCas::WriteFile {
                        nsid,
                        offset: offset as u64,
                    }) && *final(self) == *old(self),
                }
            }),
            final(self).namespaces.capacity() == old(self).namespaces.capacity(),
    {
        let phase: u8 = self.phase_of(cq_id);
        let nsid: u32 = compare_sqe.nsid;
        let refusal = self.check_cas(compare_sqe, write_sqe, compare_data.len(), write_data.len());
        if let Some(status) = refusal {
            return end_cas(compare_sqe, write_sqe, sq_id, phase, status);
        }
        let (offset, mapped, outcome): (u64, bool, Option<bool>) = match self.namespaces.get(&nsid) {
            None => {
                return end_cas(compare_sqe, write_sqe, sq_id, phase, sc::INVALID_NAMESPACE);
            },
            Some(ns) => {
                let block: u64 = ns.data_bytes();
                proof {
                    assert(compare_sqe.spec_slba() * ns.block() <= ns.total_lba * ns.block())
                        by (nonlinear_arith)
                        requires
                            compare_sqe.spec_slba() <= ns.total_lba,
                            ns.block() >= 0,
                    ;
                }
                let offset: u64 = compare_sqe.slba() * block;
                (
                    offset,
                    ns.covers(offset, write_data.len()),
                    ns.same_as_backing(offset, compare_data.len(), compare_data, &file_data),
                )
            },
        };
        match outcome {
            None => end_cas(compare_sqe, write_sqe, sq_id, phase, sc::DATA_TRANSFER_ERROR),
            Some(false) => {
                self.log_error(
                    sq_id,
                    compare_sqe.cid(),
                    sc::COMPARE_FAILURE,
                    compare_sqe.slba(),
                    nsid,
                );
                end_cas(compare_sqe, write_sqe, sq_id, phase, sc::COMPARE_FAILURE)
            },
            Some(true) => {
                if !mapped {
                    return FusedCas::WriteFile { nsid, offset };
                }
                if let Some(ns) = self.namespaces.get_mut(&nsid) {
                    let _ = ns.write_at(write_data, offset);
                }
                self.count_pair(compare_sqe);
                end_cas(compare_sqe, write_sqe, sq_id, phase, 0)
            },
        }
    }

    /// `self` has counted the read and the write of a pair more than `before`, and
    /// differs from it otherwise at most in its namespaces.
    pub open spec fn pair_counted(&self, before: NvmeController, compare_sqe: Sqe) -> bool {
        *self == (NvmeController {
            namespaces: self.namespaces,
            stat_host_reads: (before.stat_host_reads + 1) as u64,
            stat_lba_read: (before.stat_lba_read + compare_sqe.spec_nlb()) as u64,
            stat_host_writes: (before.stat_host_writes + 1) as u64,
            stat_lba_written: (before.stat_lba_written + compare_sqe.spec_nlb()) as u64,
            ..before
        })
    }

    fn count_pair(&mut self, compare_sqe: Sqe)
        requires
            old(self).can_count_pair(compare_sqe.spec_nlb()),
        ensures
            final(self).pair_counted(*old(self), compare_sqe),
            final(self).namespaces == old(self).namespaces,
    {
        let nlb: u64 = compare_sqe.nlb() as u64;
        self.stat_host_reads = self.stat_host_reads + 1;
        self.stat_lba_read = self.stat_lba_read + nlb;
        self.stat_host_writes = self.stat_host_writes + 1;
        self.stat_lba_written = self.stat_lba_written + nlb;
    }

    /// Ends an atomic compare-and-write whose data had to be written to the backing
    /// file; `ok` tells whether it was.
    pub fn nvme_fused_cas_written(
        &mut self,
        sq_id: u16,
        cq_id: u16,
        compare_sqe: Sqe,
        write_sqe: Sqe,
        ok: bool,
    ) -> (r: (Cqe, Cqe))
        requires
            ok ==> old(self).can_count_pair(compare_sqe.spec_nlb()),
        ensures
            r == pair_cqes(
                compare_sqe,
                write_sqe,
                sq_id,
                old(self).phase(cq_id),
                if ok {
                    0
                } else {
                    sc::DATA_TRANSFER_ERROR
                },
            ),
            ok ==> final(self).pair_counted(*old(self), compare_sqe),
            !ok ==> *final(self) == *old(self),
            final(self).namespaces == old(self).namespaces,
    {
        let phase: u8 = self.phase_of(cq_id);
        if ok {
            self.count_pair(compare_sqe);
        }
        let status: u16 = if ok {
            0
        } else {
            sc::DATA_TRANSFER_ERROR
        };
        (
            Cqe::error(compare_sqe.cid(), sq_id, 0, phase, status),
            Cqe::error(write_sqe.cid(), sq_id, 0, phase, status),
        )
    }
}

/// Both commands of a pair end with `status`.
fn end_cas(compare_sqe: Sqe, write_sqe: Sqe, sq_id: u16, phase: u8, status: u16) -> (r: FusedCas)
    ensures
        r == cas_complete(pair_cqes(compare_sqe, write_sqe, sq_id, phase, status)),
{
    FusedCas::Complete {
        compare: Cqe::error(compare_sqe.cid(), sq_id, 0, phase, status),
        write: Cqe::error(write_sqe.cid(), sq_id, 0, phase, status),
    }
}

impl Namespace {
    /// Whether the `len` bytes from `offset` on are `data`; `None` where they could not
    /// be read.
    fn same_as_backing(&self, offset: u64, len: usize, data: &[u8], file: &Option<Vec<u8>>) -> (r:
        Option<bool>)
        ensures
            r == (match self.backing(
                offset as int,
                len as int,
                bytes_of(*file),
            ) {
                Some(b) => Some(b == data@),
                None => None,
            }),
    {
        match &self.mmap {
            Some(m) => {
                let src = mapping::mapping_slice(m);
                let n: usize = src.len();
                if offset <= n as u64 && len <= n - offset as usize {
                    let from: usize = offset as usize;
                    let part = vstd::slice::slice_subrange(src, from, from + len);
                    return Some(bytes::same_bytes(part, data));
                }
            },
            None => {},
        }
        match file {
            Some(d) => Some(bytes::same_bytes(d.as_slice(), data)),
            None => None,
        }
    }
}

/// A namespace that is not ready serves no fused pair: whichever way the pair comes, it is
/// refused with that status, whatever the data, and no transfer starts.
pub proof fn law_not_ready_namespace_serves_no_pair(
    namespaces: Map<u32, Namespace>,
    compare: Sqe,
    write: Sqe,
    compare_data: Seq<u8>,
    write_data: Seq<u8>,
    file: Option<Seq<u8>>,
    s: dispatch::Commands,
    aggr_thr: u8,
    cq_id: u16,
    sq_id: u16,
    heads: (u16, u16),
)
    requires
        compare.spec_opcode() == nvm_opc::COMPARE,
        dispatch::fused_pair(compare, write),
        dispatch::io_namespace(namespaces, compare.nsid) is Some,
        namespaces[compare.nsid].not_ready,
    ensures
        cas_outcome(namespaces, compare, write, compare_data, write_data, file)
            == CasOutcome::Refused(sc::NAMESPACE_NOT_READY),
        ({
            let first = (compare, heads.0);
            let second = (write, heads.1);
            let r = s.compare_started(namespaces, aggr_thr, cq_id, sq_id, first, second);
            &&& r == s.pair_refused(
                aggr_thr,
                cq_id,
                sq_id,
                first,
                second,
                sc::NAMESPACE_NOT_READY,
            )
            &&& r.ios == s.ios
        }),
{
}

/// A compare-and-write that succeeded found the data that was compared, and leaves the
/// data that was written; no other byte of the namespace has changed.
pub proof fn law_cas_swaps_exactly_the_blocks(
    before: Map<u32, Namespace>,
    after: Namespace,
    compare: Sqe,
    write: Sqe,
    compare_data: Seq<u8>,
    write_data: Seq<u8>,
    file: Option<Seq<u8>>,
    i: int,
)
    requires
        cas_outcome(before, compare, write, compare_data, write_data, file) is Replaced,
        after.media() == Some(
            mapping::overwritten(
                before[compare.nsid].media()->0,
                compare.spec_slba() * before[compare.nsid].block(),
                write_data,
            ),
        ),
    ensures
        ({
            let ns = before[compare.nsid];
            let offset = compare.spec_slba() * ns.block();
            let len = write_data.len() as int;
            &&& ns.media_at(offset, len) == compare_data
            &&& after.media_at(offset, len) == write_data
            &&& after.media()->0.len() == ns.media()->0.len()
            &&& 0 <= i < ns.media()->0.len() && !(offset <= i < offset + len)
                ==> after.media()->0[i] == ns.media()->0[i]
        }),
{
    let ns = before[compare.nsid];
    assert(compare.spec_slba() * ns.block() >= 0) by (nonlinear_arith)
        requires
            compare.spec_slba() >= 0,
            ns.block() >= 0,
    ;
    mapping::law_overwritten(
        ns.media()->0,
        compare.spec_slba() * ns.block(),
        write_data,
    );
}

/// A compare-and-write of the same data once more finds the data changed, unless it wrote
/// what was there.
pub proof fn law_cas_succeeds_once(
    before: Map<u32, Namespace>,
    after: Namespace,
    compare: Sqe,
    write: Sqe,
    compare_data: Seq<u8>,
    write_data: Seq<u8>,
    file: Option<Seq<u8>>,
    later: Option<Seq<u8>>,
)
    requires
        cas_outcome(before, compare, write, compare_data, write_data, file) is Replaced,
        after == (Namespace { mmap: after.mmap, ..before[compare.nsid] }),
        after.media() == Some(
            mapping::overwritten(
                before[compare.nsid].media()->0,
                compare.spec_slba() * before[compare.nsid].block(),
                write_data,
            ),
        ),
    ensures
        ({
            let now = before.insert(compare.nsid, after);
            let again = cas_outcome(now, compare, write, compare_data, write_data, later);
            &&& write_data != compare_data ==> again is Different
            &&& write_data == compare_data ==> again is Replaced
        }),
{
    law_cas_swaps_exactly_the_blocks(
        before,
        after,
        compare,
        write,
        compare_data,
        write_data,
        file,
        0,
    );
}

} // verus!
