//! Comparing, and the atomic compare-and-write.
use vstd::arithmetic::power2::pow2;
use vstd::prelude::*;

use crate::cmd::{Cqe, Sqe};
use crate::controller::compare;
use crate::controller::compare::FusedCas;
use crate::controller::namespace::Namespace;
use crate::controller::{ErrorLogEntry, NvmeController};
use crate::laws;
use crate::mapping;
use crate::regs::CompletionQueue;

verus! {

/// Byte `i` of data that came in two parts.
pub open spec fn byte_of_parts(first: Seq<u8>, second: Seq<u8>, i: int) -> u8 {
    if i < first.len() {
        first[i]
    } else {
        second[i - first.len()]
    }
}

/// The two parts, the first one first, start with `data`.
pub open spec fn parts_start_with(first: Seq<u8>, second: Seq<u8>, data: Seq<u8>) -> bool {
    &&& first.len() + second.len() >= data.len()
    &&& forall|i: int| 0 <= i < data.len() ==> #[trigger] data[i] == byte_of_parts(first, second, i)
}

/// The bytes of a part that may be missing.
pub open spec fn part(v: Option<Vec<u8>>) -> Seq<u8> {
    match v {
        Some(d) => d@,
        None => Seq::empty(),
    }
}

/// The mapping of `ns` reaches as far as byte `end`.
pub open spec fn mapped_to(ns: Namespace, end: int) -> bool {
    ns.mmap is Some && end <= mapping::mapping_bytes(ns.mmap->0).len()
}

/// From byte `offset` on, `ns` holds `data`: the mapping does where it reaches so far, and
/// else the backing file, from which `file` was read.
pub open spec fn holds_bytes(ns: Namespace, offset: int, data: Seq<u8>, file: Option<Vec<u8>>) -> bool {
    if mapped_to(ns, offset + data.len()) {
        forall|i: int|
            0 <= i < data.len() ==> #[trigger] data[i] == mapping::mapping_bytes(
                ns.mmap->0,
            )[offset + i]
    } else {
        file is Some && file->0@ == data
    }
}

/// The error log got `e`, and keeps the last 64 entries; the error is counted, and nothing
/// else has changed.
pub open spec fn error_entered(before: NvmeController, after: NvmeController, e: ErrorLogEntry) -> bool {
    let all = before.error_log@.push(e);
    let kept = after.error_log@;
    &&& e.error_count == before.stat_num_err_log_entries + 1
    &&& after.stat_num_err_log_entries == before.stat_num_err_log_entries + 1
    &&& kept.len() == (if all.len() > 64 {
        64
    } else {
        all.len() as int
    })
    &&& forall|i: int|
        0 <= i < kept.len() ==> #[trigger] kept[i] == all[all.len() - kept.len() + i]
    &&& after == (NvmeController {
        stat_num_err_log_entries: after.stat_num_err_log_entries,
        error_log: after.error_log,
        ..before
    })
}

proof fn lemma_error_entered(
    before: NvmeController,
    after: NvmeController,
    sq_id: u16,
    cid: u16,
    status: u16,
    lba: u64,
    nsid: u32,
)
    requires
        after.error_logged(before, sq_id, cid, status, lba, nsid),
        status < 0x8000,
        before.stat_num_err_log_entries < u64::MAX,
    ensures
        error_entered(
            before,
            after,
            ErrorLogEntry {
                error_count: (before.stat_num_err_log_entries + 1) as u64,
                sq_id,
                cid,
                status_field: (status * 2) as u16,
                param_loc: 0,
                lba,
                nsid,
            },
        ),
{
    assert(status < 0x8000 ==> status << 1 == status * 2) by (bit_vector);
}

/// A compare succeeds exactly where the blocks hold what the host sent, the first part of
/// it first; what the host sent beyond the blocks does not count. A compare that succeeds
/// counts as a read of the blocks; one that does not is an error of that command.
pub proof fn law_compare_takes_the_parts_in_order(
    c: &mut NvmeController,
    nsid: u32,
    lba: u64,
    num_blocks: u32,
    host_prp1: Vec<u8>,
    host_prp2: Option<Vec<u8>>,
    file_data: Option<Vec<u8>>,
    cid: u16,
    sq_id: u16,
    sq_head: u16,
    cq_id: u16,
    r: Cqe,
    stored: Seq<u8>,
)
    requires
        call_ensures(
            NvmeController::compare_finalize,
            (
                c,
                nsid,
                lba,
                num_blocks,
                host_prp1,
                host_prp2,
                file_data,
                cid,
                sq_id,
                sq_head,
                cq_id,
            ),
            r,
        ),
        old(c).namespaces@.contains_key(nsid),
        stored.len() == num_blocks * pow2(old(c).namespaces@[nsid].lbads as nat),
        holds_bytes(
            old(c).namespaces@[nsid],
            lba * pow2(old(c).namespaces@[nsid].lbads as nat),
            stored,
            file_data,
        ),
        old(c).stat_host_reads < u64::MAX,
        old(c).stat_lba_read + num_blocks <= u64::MAX,
        old(c).stat_num_err_log_entries < u64::MAX,
    ensures
        parts_start_with(host_prp1@, part(host_prp2), stored) ==> {
            &&& laws::answer_of(r) == laws::plain_answer(
                old(c).cqs@,
                cq_id,
                sq_id,
                sq_head,
                cid as int,
                0,
            )
            &&& final(c).stat_host_reads == old(c).stat_host_reads + 1
            &&& final(c).stat_lba_read == old(c).stat_lba_read + num_blocks
            &&& *final(c) == (NvmeController {
                stat_host_reads: final(c).stat_host_reads,
                stat_lba_read: final(c).stat_lba_read,
                ..*old(c)
            })
        },
        !parts_start_with(host_prp1@, part(host_prp2), stored) ==> {
            &&& laws::answer_of(r) == laws::plain_answer(
                old(c).cqs@,
                cq_id,
                sq_id,
                sq_head,
                cid as int,
                0x285,
            )
            &&& error_entered(
                *old(c),
                *final(c),
                ErrorLogEntry {
                    error_count: (old(c).stat_num_err_log_entries + 1) as u64,
                    sq_id,
                    cid,
                    status_field: 0x50a,
                    param_loc: 0,
                    lba,
                    nsid,
                },
            )
        },
        r.dw1 == 0,
{
    let ns = old(c).namespaces@[nsid];
    let offset = lba * ns.block();
    let len = num_blocks * ns.block();
    let phase = old(c).phase(cq_id);
    vstd::arithmetic::power2::lemma_pow2_pos(ns.lbads as nat);
    assert(offset >= 0 && len >= 0) by (nonlinear_arith)
        requires
            offset == lba * ns.block(),
            len == num_blocks * ns.block(),
            ns.block() > 0,
    ;
    let b = ns.backing(offset, len, compare::bytes_of(file_data));
    assert(b is Some && b->0 =~= stored);
    let host = compare::host_data(host_prp1, host_prp2, len);
    let all = host_prp1@ + part(host_prp2);
    assert(all =~= match host_prp2 {
        Some(d) => host_prp1@ + d@,
        None => host_prp1@,
    });
    assert(forall|i: int| 0 <= i < all.len() ==> #[trigger] all[i] == byte_of_parts(host_prp1@, part(host_prp2), i));
    if parts_start_with(host_prp1@, part(host_prp2), stored) {
        assert(host =~= stored);
    } else if host == stored {
        assert forall|i: int| 0 <= i < stored.len() implies #[trigger] stored[i] == byte_of_parts(
            host_prp1@,
            part(host_prp2),
            i,
        ) by {
            assert(host[i] == all[i]);
        }
    }
    laws::lemma_answer_of(cid, sq_id, sq_head, phase, 0);
    laws::lemma_answer_of(cid, sq_id, sq_head, phase, 0x285);
    if host != stored {
        lemma_error_entered(*old(c), *final(c), sq_id, cid, 0x285, lba, nsid);
    }
}

/// A compare whose two parts are the two halves of the stored blocks succeeds with the first
/// half first; the other way round it fails, unless that is the same data.
pub proof fn law_halves_compare_in_order(
    c: &mut NvmeController,
    nsid: u32,
    lba: u64,
    num_blocks: u32,
    first: Vec<u8>,
    second: Vec<u8>,
    file_data: Option<Vec<u8>>,
    cid: u16,
    sq_id: u16,
    sq_head: u16,
    cq_id: u16,
    r: Cqe,
    swapped: bool,
)
    requires
        call_ensures(
            NvmeController::compare_finalize,
            (
                c,
                nsid,
                lba,
                num_blocks,
                if swapped {
                    second
                } else {
                    first
                },
                if swapped {
                    Some(first)
                } else {
                    Some(second)
                },
                file_data,
                cid,
                sq_id,
                sq_head,
                cq_id,
            ),
            r,
        ),
        old(c).namespaces@.contains_key(nsid),
        first@.len() + second@.len() == num_blocks * pow2(
            old(c).namespaces@[nsid].lbads as nat,
        ),
        holds_bytes(
            old(c).namespaces@[nsid],
            lba * pow2(old(c).namespaces@[nsid].lbads as nat),
            first@ + second@,
            file_data,
        ),
        old(c).stat_host_reads < u64::MAX,
        old(c).stat_lba_read + num_blocks <= u64::MAX,
        old(c).stat_num_err_log_entries < u64::MAX,
    ensures
        !swapped ==> laws::answer_of(r).status == 0,
        swapped ==> (laws::answer_of(r).status == 0 <==> second@ + first@ == first@ + second@),
{
    let stored = first@ + second@;
    let (a, b) = if swapped {
        (second, first)
    } else {
        (first, second)
    };
    law_compare_takes_the_parts_in_order(
        c,
        nsid,
        lba,
        num_blocks,
        a,
        Some(b),
        file_data,
        cid,
        sq_id,
        sq_head,
        cq_id,
        r,
        stored,
    );
    let sent = a@ + b@;
    assert(forall|i: int| 0 <= i < sent.len() ==> #[trigger] sent[i] == byte_of_parts(a@, b@, i));
    if sent == stored {
        assert(parts_start_with(a@, b@, stored));
    } else if parts_start_with(a@, b@, stored) {
        assert forall|i: int| 0 <= i < stored.len() implies #[trigger] stored[i] == sent[i] by {}
        assert(sent =~= stored);
    }
}

/// Where the blocks cannot be read the transfer failed, and that is an error of the
/// command; a namespace that is not there is refused, and nothing happens.
pub proof fn law_compare_without_data_fails(
    c: &mut NvmeController,
    nsid: u32,
    lba: u64,
    num_blocks: u32,
    host_prp1: Vec<u8>,
    host_prp2: Option<Vec<u8>>,
    cid: u16,
    sq_id: u16,
    sq_head: u16,
    cq_id: u16,
    r: Cqe,
)
    requires
        call_ensures(
            NvmeController::compare_finalize,
            (
                c,
                nsid,
                lba,
                num_blocks,
                host_prp1,
                host_prp2,
                None::<Vec<u8>>,
                cid,
                sq_id,
                sq_head,
                cq_id,
            ),
            r,
        ),
        old(c).stat_num_err_log_entries < u64::MAX,
        old(c).namespaces@.contains_key(nsid) ==> !mapped_to(
            old(c).namespaces@[nsid],
            (lba + num_blocks) * pow2(old(c).namespaces@[nsid].lbads as nat),
        ),
    ensures
        laws::answer_of(r) == laws::plain_answer(
            old(c).cqs@,
            cq_id,
            sq_id,
            sq_head,
            cid as int,
            if old(c).namespaces@.contains_key(nsid) {
                4
            } else {
                0xb
            },
        ),
        old(c).namespaces@.contains_key(nsid) ==> error_entered(
            *old(c),
            *final(c),
            ErrorLogEntry {
                error_count: (old(c).stat_num_err_log_entries + 1) as u64,
                sq_id,
                cid,
                status_field: 8,
                param_loc: 0,
                lba,
                nsid,
            },
        ),
        !old(c).namespaces@.contains_key(nsid) ==> *final(c) == *old(c),
{
    let phase = old(c).phase(cq_id);
    laws::lemma_answer_of(cid, sq_id, sq_head, phase, 4);
    laws::lemma_answer_of(cid, sq_id, sq_head, phase, 0xb);
    if old(c).namespaces@.contains_key(nsid) {
        let ns = old(c).namespaces@[nsid];
        let p = ns.block();
        assert((lba + num_blocks) * p == lba * p + num_blocks * p) by (nonlinear_arith);
        lemma_error_entered(*old(c), *final(c), sq_id, cid, 4, lba, nsid);
    }
}

/// A fused compare-and-write that is well formed: a compare and a write of the same blocks
/// of a namespace that is there and ready, of plain blocks, no more than a page of them,
/// within the namespace, and with as much data for either as the blocks hold.
pub open spec fn pair_is_proper(
    namespaces: Map<u32, Namespace>,
    compare: Sqe,
    write: Sqe,
    compare_len: int,
    write_len: int,
) -> bool {
    let ns = namespaces[compare.nsid];
    let n = laws::blocks_of(compare);
    &&& laws::opcode_of(compare) == 5
    &&& same_blocks(compare, write)
    &&& namespaces.contains_key(compare.nsid)
    &&& !ns.not_ready
    &&& plain_blocks(ns)
    &&& n * pow2(ns.lbads as nat) <= 4096
    &&& compare_len == n * pow2(ns.lbads as nat)
    &&& write_len == compare_len
    &&& laws::first_block_of(compare) + n <= ns.total_lba
}

/// `write` is a write of the blocks that `first` names.
pub open spec fn same_blocks(first: Sqe, write: Sqe) -> bool {
    &&& laws::opcode_of(write) == 1
    &&& write.nsid == first.nsid
    &&& laws::first_block_of(write) == laws::first_block_of(first)
    &&& laws::blocks_of(write) == laws::blocks_of(first)
}

/// Blocks of 512 or 4096 bytes and nothing besides.
pub open spec fn plain_blocks(ns: Namespace) -> bool {
    ns.meta_size == 0 && ns.pi_type == 0 && (ns.lbads == 9 || ns.lbads == 12)
}

/// Both commands of a pair end with `status`.
pub open spec fn pair_ends(
    r: FusedCas,
    cqs: Map<u16, CompletionQueue>,
    cq_id: u16,
    sq_id: u16,
    compare: Sqe,
    write: Sqe,
    status: int,
) -> bool {
    &&& r is Complete
    &&& laws::answer_of(r->compare) == laws::plain_answer(
        cqs,
        cq_id,
        sq_id,
        0,
        laws::cid_of(compare),
        status,
    )
    &&& laws::answer_of(r->write) == laws::plain_answer(
        cqs,
        cq_id,
        sq_id,
        0,
        laws::cid_of(write),
        status,
    )
}

proof fn lemma_pair_ends(
    r: FusedCas,
    s: NvmeController,
    cq_id: u16,
    sq_id: u16,
    compare: Sqe,
    write: Sqe,
    status: u16,
)
    requires
        status < 0x8000,
        r == compare::cas_complete(
            compare::pair_cqes(compare, write, sq_id, s.phase(cq_id), status),
        ),
    ensures
        pair_ends(r, s.cqs@, cq_id, sq_id, compare, write, status as int),
{
    laws::lemma_fields(compare);
    laws::lemma_fields(write);
    laws::lemma_answer_of(compare.spec_cid(), sq_id, 0, s.phase(cq_id), status);
    laws::lemma_answer_of(write.spec_cid(), sq_id, 0, s.phase(cq_id), status);
}

proof fn lemma_proper(namespaces: Map<u32, Namespace>, compare: Sqe, write: Sqe, n: nat, m: nat)
    ensures
        pair_is_proper(namespaces, compare, write, n as int, m as int) <==> compare::cas_refusal(
            namespaces,
            compare,
            write,
            n,
            m,
        ) is None,
{
    laws::lemma_fields(compare);
    laws::lemma_fields(write);
}

/// A proper compare-and-write finds the data or does not: where the blocks hold what was
/// compared, they hold afterwards what was written, no other byte has changed, and both
/// commands succeed and are counted; where they do not, nothing is written, and both fail
/// alike. Data that is not mapped is left to the caller to write, at the place of the
/// blocks, and nothing is reported before.
pub proof fn law_compare_and_write_is_one_step(
    c: &mut NvmeController,
    sq_id: u16,
    cq_id: u16,
    compare: Sqe,
    write: Sqe,
    compare_data: &[u8],
    write_data: &[u8],
    file_data: Option<Vec<u8>>,
    r: FusedCas,
    stored: Seq<u8>,
    i: int,
)
    requires
        call_ensures(
            NvmeController::nvme_fused_cas,
            (c, sq_id, cq_id, compare, write, compare_data, write_data, file_data),
            r,
        ),
        pair_is_proper(
            old(c).namespaces@,
            compare,
            write,
            compare_data@.len() as int,
            write_data@.len() as int,
        ),
        stored.len() == compare_data@.len(),
        holds_bytes(
            old(c).namespaces@[compare.nsid],
            laws::first_block_of(compare) * pow2(
                old(c).namespaces@[compare.nsid].lbads as nat,
            ),
            stored,
            file_data,
        ),
        old(c).stat_num_err_log_entries < u64::MAX,
        old(c).stat_host_reads < u64::MAX,
        old(c).stat_lba_read + laws::blocks_of(compare) <= u64::MAX,
        old(c).stat_host_writes < u64::MAX,
        old(c).stat_lba_written + laws::blocks_of(compare) <= u64::MAX,
        laws::first_block_of(compare) * pow2(old(c).namespaces@[compare.nsid].lbads as nat)
            <= u64::MAX,
    ensures
        ({
            let ns = old(c).namespaces@[compare.nsid];
            let at = laws::first_block_of(compare) * pow2(ns.lbads as nat);
            let len = stored.len() as int;
            let n = laws::blocks_of(compare);
            if stored != compare_data@ {
                &&& pair_ends(r, old(c).cqs@, cq_id, sq_id, compare, write, 0x285)
                &&& error_entered(
                    *old(c),
                    *final(c),
                    ErrorLogEntry {
                        error_count: (old(c).stat_num_err_log_entries + 1) as u64,
                        sq_id,
                        cid: laws::cid_of(compare) as u16,
                        status_field: 0x50a,
                        param_loc: 0,
                        lba: laws::first_block_of(compare) as u64,
                        nsid: compare.nsid,
                    },
                )
            } else if mapped_to(ns, at + len) {
                let now = final(c).namespaces@[compare.nsid];
                let m = mapping::mapping_bytes(ns.mmap->0);
                let m_now = mapping::mapping_bytes(now.mmap->0);
                &&& pair_ends(r, old(c).cqs@, cq_id, sq_id, compare, write, 0)
                &&& now.mmap is Some
                &&& m_now.len() == m.len()
                &&& at <= i < at + len ==> m_now[i] == write_data@[i - at]
                &&& 0 <= i < at || at + len <= i < m.len() ==> m_now[i] == m[i]
                &&& now == (Namespace { mmap: now.mmap, ..ns })
                &&& final(c).namespaces@ == old(c).namespaces@.insert(compare.nsid, now)
                &&& final(c).stat_host_reads == old(c).stat_host_reads + 1
                &&& final(c).stat_lba_read == old(c).stat_lba_read + n
                &&& final(c).stat_host_writes == old(c).stat_host_writes + 1
                &&& final(c).stat_lba_written == old(c).stat_lba_written + n
                &&& *final(c) == (NvmeController {
                    namespaces: final(c).namespaces,
                    stat_host_reads: final(c).stat_host_reads,
                    stat_lba_read: final(c).stat_lba_read,
                    stat_host_writes: final(c).stat_host_writes,
                    stat_lba_written: final(c).stat_lba_written,
                    ..*old(c)
                })
            } else {
                &&& r == (FusedCas::WriteFile { nsid: compare.nsid, offset: at as u64 })
                &&& *final(c) == *old(c)
            }
        }),
{
    laws::lemma_fields(compare);
    laws::lemma_fields(write);
    lemma_proper(
        old(c).namespaces@,
        compare,
        write,
        compare_data@.len(),
        write_data@.len(),
    );
    let ns = old(c).namespaces@[compare.nsid];
    let at = laws::first_block_of(compare) * pow2(ns.lbads as nat);
    vstd::arithmetic::power2::lemma_pow2_pos(ns.lbads as nat);
    assert(at >= 0) by (nonlinear_arith)
        requires
            at == laws::first_block_of(compare) * pow2(ns.lbads as nat),
            laws::first_block_of(compare) >= 0,
            pow2(ns.lbads as nat) > 0,
    ;
    let b = ns.backing(at, stored.len() as int, compare::bytes_of(file_data));
    assert(b is Some && b->0 =~= stored);
    if stored != compare_data@ {
        lemma_pair_ends(r, *old(c), cq_id, sq_id, compare, write, 0x285);
        lemma_error_entered(
            *old(c),
            *final(c),
            sq_id,
            compare.spec_cid(),
            0x285,
            compare.spec_slba(),
            compare.nsid,
        );
    } else if mapped_to(ns, at + stored.len()) {
        lemma_pair_ends(r, *old(c), cq_id, sq_id, compare, write, 0);
        mapping::law_overwritten(ns.media()->0, at, write_data@);
        let m = ns.media()->0;
        let o = mapping::overwritten(m, at, write_data@);
        if at <= i < at + stored.len() {
            assert(o.subrange(at, at + write_data@.len())[i - at] == o[i]);
        }
        if 0 <= i < at || at + stored.len() <= i < m.len() {
            assert(o[i] == m[i]);
        }
    }
}

/// A compare-and-write that is not proper is refused, and nothing happens: a pair that does
/// not belong together, or is too large, or comes with the wrong amount of data, as an
/// invalid field; then a namespace that is not there, or is not ready; and blocks beyond
/// the namespace last.
pub proof fn law_improper_pair_changes_nothing(
    c: &mut NvmeController,
    sq_id: u16,
    cq_id: u16,
    compare: Sqe,
    write: Sqe,
    compare_data: &[u8],
    write_data: &[u8],
    file_data: Option<Vec<u8>>,
    r: FusedCas,
)
    requires
        call_ensures(
            NvmeController::nvme_fused_cas,
            (c, sq_id, cq_id, compare, write, compare_data, write_data, file_data),
            r,
        ),
        !pair_is_proper(
            old(c).namespaces@,
            compare,
            write,
            compare_data@.len() as int,
            write_data@.len() as int,
        ),
    ensures
        *final(c) == *old(c),
        ({
            let ns = old(c).namespaces@[compare.nsid];
            let status: int = if laws::opcode_of(compare) != 5 || !same_blocks(compare, write) {
                2
            } else if !old(c).namespaces@.contains_key(compare.nsid) {
                0xb
            } else if ns.not_ready {
                0x82
            } else if plain_blocks(ns) && laws::blocks_of(compare) * pow2(ns.lbads as nat) <= 4096
                && compare_data@.len() == laws::blocks_of(compare) * pow2(ns.lbads as nat)
                && write_data@.len() == compare_data@.len() {
                0x80
            } else {
                2
            };
            pair_ends(r, old(c).cqs@, cq_id, sq_id, compare, write, status)
        }),
{
    laws::lemma_fields(compare);
    laws::lemma_fields(write);
    lemma_proper(
        old(c).namespaces@,
        compare,
        write,
        compare_data@.len(),
        write_data@.len(),
    );
    let refusal = compare::cas_refusal(
        old(c).namespaces@,
        compare,
        write,
        compare_data@.len(),
        write_data@.len(),
    );
    lemma_pair_ends(r, *old(c), cq_id, sq_id, compare, write, refusal->0);
}

/// A proper pair whose blocks cannot be read fails as a transfer, and nothing happens.
pub proof fn law_unreadable_pair_changes_nothing(
    c: &mut NvmeController,
    sq_id: u16,
    cq_id: u16,
    compare: Sqe,
    write: Sqe,
    compare_data: &[u8],
    write_data: &[u8],
    r: FusedCas,
)
    requires
        call_ensures(
            NvmeController::nvme_fused_cas,
            (c, sq_id, cq_id, compare, write, compare_data, write_data, None::<Vec<u8>>),
            r,
        ),
        pair_is_proper(
            old(c).namespaces@,
            compare,
            write,
            compare_data@.len() as int,
            write_data@.len() as int,
        ),
        !mapped_to(
            old(c).namespaces@[compare.nsid],
            laws::first_block_of(compare) * pow2(old(c).namespaces@[compare.nsid].lbads as nat)
                + compare_data@.len(),
        ),
    ensures
        pair_ends(r, old(c).cqs@, cq_id, sq_id, compare, write, 4),
        *final(c) == *old(c),
{
    laws::lemma_fields(compare);
    laws::lemma_fields(write);
    lemma_proper(
        old(c).namespaces@,
        compare,
        write,
        compare_data@.len(),
        write_data@.len(),
    );
    lemma_pair_ends(r, *old(c), cq_id, sq_id, compare, write, 4);
}

/// When the caller has written the data of a pair, both commands succeed and are counted;
/// when that failed, both fail as transfers, and nothing is counted.
pub proof fn law_written_pair_ends_as_told(
    c: &mut NvmeController,
    sq_id: u16,
    cq_id: u16,
    compare: Sqe,
    write: Sqe,
    ok: bool,
    r: (Cqe, Cqe),
)
    requires
        call_ensures(
            NvmeController::nvme_fused_cas_written,
            (c, sq_id, cq_id, compare, write, ok),
            r,
        ),
        old(c).stat_host_reads < u64::MAX,
        old(c).stat_lba_read + laws::blocks_of(compare) <= u64::MAX,
        old(c).stat_host_writes < u64::MAX,
        old(c).stat_lba_written + laws::blocks_of(compare) <= u64::MAX,
    ensures
        pair_ends(
            FusedCas::Complete { compare: r.0, write: r.1 },
            old(c).cqs@,
            cq_id,
            sq_id,
            compare,
            write,
            if ok {
                0
            } else {
                4
            },
        ),
        !ok ==> *final(c) == *old(c),
        ok ==> {
            let n = laws::blocks_of(compare);
            &&& final(c).stat_host_reads == old(c).stat_host_reads + 1
            &&& final(c).stat_lba_read == old(c).stat_lba_read + n
            &&& final(c).stat_host_writes == old(c).stat_host_writes + 1
            &&& final(c).stat_lba_written == old(c).stat_lba_written + n
            &&& *final(c) == (NvmeController {
                stat_host_reads: final(c).stat_host_reads,
                stat_lba_read: final(c).stat_lba_read,
                stat_host_writes: final(c).stat_host_writes,
                stat_lba_written: final(c).stat_lba_written,
                ..*old(c)
            })
        },
{
    laws::lemma_fields(compare);
    lemma_pair_ends(
        FusedCas::Complete { compare: r.0, write: r.1 },
        *old(c),
        cq_id,
        sq_id,
        compare,
        write,
        if ok {
            0
        } else {
            4
        },
    );
}

} // verus!
