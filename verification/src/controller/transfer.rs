//! Bringing data to the host.
use vstd::prelude::*;

use crate::bytes;
use crate::controller::ctx;
use crate::controller::ctx::DeviceCtx;
use crate::controller::dispatch::Commands;
use crate::controller::inflight::{PendingIo, PendingOp, PrpListOp};
use crate::controller::post::Link;
use crate::controller::NvmeController;
use crate::regs::NVME_PAGE_SIZE;

verus! {

broadcast use vstd::std_specs::hash::group_hash_axioms;

/// The addresses in a page of a PRP list: every eight bytes are one, a zero too; a
/// rest of fewer than eight bytes is none. How many of them count follows from the
/// length of the transfer.
pub fn parse_prp_list(data: &[u8]) -> (r: Vec<u64>)
    ensures
        r@ == prp_entries(data@),
{
    let n: usize = data.len() / 8;
    let mut r: Vec<u64> = Vec::new();
    let mut i: usize = 0;
    while i < n
        invariant
            n == data@.len() / 8,
            i <= n,
            r@ =~= prp_entries(data@).take(i as int),
        decreases n - i,
    {
        assert(i * 8 + 8 <= data.len());
        r.push(bytes::read_le64(data, i * 8));
        i += 1;
    }
    assert(prp_entries(data@).take(n as int) =~= prp_entries(data@));
    r
}

/// See `parse_prp_list`.
pub open spec fn prp_entries(data: Seq<u8>) -> Seq<u64> {
    Seq::new(data.len() / 8, |i: int| bytes::le64_at(data, i * 8))
}

/// The bytes of a list of addresses.
pub open spec fn prp_list_bytes(entries: Seq<u64>) -> Seq<u8>
    decreases entries.len(),
{
    if entries.len() == 0 {
        Seq::empty()
    } else {
        prp_list_bytes(entries.drop_last()) + bytes::le64_bytes(entries.last())
    }
}

/// The addresses that a host put into a list are the addresses that come out of it,
/// zeroes included.
pub proof fn law_prp_list_round_trip(entries: Seq<u64>)
    ensures
        prp_list_bytes(entries).len() == entries.len() * 8,
        prp_entries(prp_list_bytes(entries)) == entries,
    decreases entries.len(),
{
    if entries.len() > 0 {
        let init = entries.drop_last();
        let last = entries.last();
        law_prp_list_round_trip(init);
        bytes::law_le64_round_trip(last);
        let s = prp_list_bytes(entries);
        assert forall|i: int| 0 <= i < entries.len() implies #[trigger] prp_entries(s)[i]
            == entries[i] by {
            if i < init.len() {
                assert(prp_entries(prp_list_bytes(init))[i] == init[i]);
                assert(bytes::le64_at(s, i * 8) == bytes::le64_at(prp_list_bytes(init), i * 8));
            } else {
                assert(bytes::le64_at(s, i * 8) == bytes::le64_at(bytes::le64_bytes(last), 0));
            }
        }
        assert(prp_entries(s) =~= entries);
    } else {
        assert(prp_entries(prp_list_bytes(entries)) =~= entries);
    }
}

/// How many pages `len` bytes take.
pub open spec fn page_count(len: int) -> int {
    (len + 4095) / 4096
}

/// The bytes of page `i` of `data`.
pub open spec fn page_bytes(data: Seq<u8>, i: int) -> Seq<u8> {
    data.subrange(
        i * 4096,
        if (i + 1) * 4096 <= data.len() {
            (i + 1) * 4096
        } else {
            data.len() as int
        },
    )
}

/// The first `n` pages of `data`, one after the other.
pub open spec fn pages_joined(data: Seq<u8>, n: nat) -> Seq<u8>
    decreases n,
{
    if n == 0 {
        Seq::empty()
    } else {
        pages_joined(data, (n - 1) as nat) + page_bytes(data, n - 1)
    }
}

/// The pages of `data`, one after the other, are `data`.
pub proof fn law_pages_join(data: Seq<u8>)
    ensures
        pages_joined(data, page_count(data.len() as int) as nat) == data,
{
    lemma_pages_joined(data, page_count(data.len() as int) as nat);
    let n = page_count(data.len() as int);
    assert(n * 4096 >= data.len());
    assert(data.take(data.len() as int) =~= data);
}

proof fn lemma_pages_joined(data: Seq<u8>, n: nat)
    requires
        n <= page_count(data.len() as int),
    ensures
        pages_joined(data, n) == data.take(
            if n * 4096 <= data.len() {
                (n * 4096) as int
            } else {
                data.len() as int
            },
        ),
    decreases n,
{
    if n == 0 {
        assert(data.take(0) =~= Seq::empty());
    } else {
        lemma_pages_joined(data, (n - 1) as nat);
        assert((n - 1) * 4096 <= data.len());
        let end = if n * 4096 <= data.len() {
            (n * 4096) as int
        } else {
            data.len() as int
        };
        assert(data.take((n - 1) * 4096) + data.subrange((n - 1) * 4096, end) =~= data.take(end));
    }
}

/// The pages that `op` holds.
pub open spec fn pages_of(op: PrpListOp) -> Seq<Option<Seq<u8>>> {
    op.data_pages@.map_values(
        |p: Option<Vec<u8>>|
            match p {
                Some(v) => Some(v@),
                None => None,
            },
    )
}

/// `data` in pages.
pub open spec fn split_pages(data: Seq<u8>) -> Seq<Option<Seq<u8>>> {
    Seq::new(page_count(data.len() as int) as nat, |i: int| Some(page_bytes(data, i)))
}

impl Commands {
    /// A transfer of a command that belongs to no namespace is on its way: the next
    /// token stands for it, and `t` is the link with the request made.
    pub open spec fn awaits(
        self,
        t: ctx::Trace,
        sq_id: u16,
        cid: u16,
        sq_head: u16,
        cq_id: u16,
        op: PendingOp,
    ) -> Commands {
        Commands {
            ios: self.ios.insert(
                self.link.trace.next_token,
                PendingIo { sq_id, cid, sq_head, cq_id, nsid: 0, op },
            ),
            link: Link { trace: t, ..self.link },
            ..self
        }
    }
}

fn copy_range(data: &Vec<u8>, from: usize, to: usize) -> (r: Vec<u8>)
    requires
        from <= to <= data@.len(),
    ensures
        r@ == data@.subrange(from as int, to as int),
{
    vstd::slice::slice_to_vec(vstd::slice::slice_subrange(data.as_slice(), from, to))
}

impl NvmeController {
    /// A number that no multi-transfer operation has had since the counter last
    /// started over.
    pub fn alloc_op_id(&mut self) -> (r: u64)
        ensures
            r == old(self).next_op_id,
            *final(self) == (NvmeController {
                next_op_id: ctx::successor(old(self).next_op_id),
                ..*old(self)
            }),
    {
        let id: u64 = self.next_op_id;
        self.next_op_id = id.wrapping_add(1);
        id
    }

    /// Brings `data` to the host and completes the command when it is there. One page
    /// goes to `prp1`; of two pages the first goes to `prp1` and the second, whose
    /// arrival completes the command, to `prp2`; for more, `prp2` is where the PRP
    /// list is, which has to be read before the pages can go out.
    pub fn dma_write_then_complete(
        &mut self,
        ctx: &mut DeviceCtx,
        prp1: u64,
        prp2: u64,
        data: Vec<u8>,
        cid: u16,
        sq_id: u16,
        sq_head: u16,
        cq_id: u16,
    )
        requires
            page_count(data@.len() as int) <= u32::MAX,
        ensures
            ({
                let s = old(self).commands(old(ctx)@);
                let t = old(ctx)@;
                let done = PendingOp::NvmReadDmaWrite { num_blocks: 0 };
                let after = final(self).commands(final(ctx)@);
                let len = data@.len();
                if len <= 4096 {
                    &&& after == s.awaits(t.write(prp1, data@), sq_id, cid, sq_head, cq_id, done)
                    &&& final(self).prp_list_ops@ == old(self).prp_list_ops@
                    &&& final(self).next_op_id == old(self).next_op_id
                } else if len <= 8192 {
                    let t1 = t.write(prp1, data@.take(4096));
                    let t2 = t1.write(prp2, data@.skip(4096));
                    &&& after == s.awaits(
                        t1,
                        sq_id,
                        cid,
                        sq_head,
                        cq_id,
                        PendingOp::NvmReadDualPrpSiblingHalf,
                    ).awaits(t2, sq_id, cid, sq_head, cq_id, done)
                    &&& final(self).prp_list_ops@ == old(self).prp_list_ops@
                    &&& final(self).next_op_id == old(self).next_op_id
                } else {
                    let op_id = old(self).next_op_id;
                    let op = final(self).prp_list_ops@[op_id];
                    &&& after == s.awaits(
                        t.read(prp2, 4096),
                        sq_id,
                        cid,
                        sq_head,
                        cq_id,
                        PendingOp::NvmReadPrpListFetch { op_id },
                    )
                    &&& final(self).next_op_id == ctx::successor(op_id)
                    &&& final(self).prp_list_ops@ == old(self).prp_list_ops@.insert(op_id, op)
                    &&& pages_of(op) == split_pages(data@)
                    &&& op == (PrpListOp {
                        sq_id,
                        cid,
                        sq_head,
                        cq_id,
                        nsid: 0,
                        lba: 0,
                        num_blocks: 0,
                        is_write: false,
                        prp1_gpa: prp1,
                        list_entries: None,
                        total_pages: page_count(len as int) as u32,
                        pages_done: 0,
                        data_pages: op.data_pages,
                    })
                }
            }),
            *final(self) == (NvmeController {
                pending_ios: final(self).pending_ios,
                prp_list_ops: final(self).prp_list_ops,
                next_op_id: final(self).next_op_id,
                ..*old(self)
            }),
    {
        let ghost s = self.commands(ctx@);
        let len: usize = data.len();
        if len as u64 <= NVME_PAGE_SIZE {
            let tok: u64 = ctx.dma_write(prp1, data);
            self.pending_ios.insert(
                tok,
                PendingIo {
                    sq_id,
                    cid,
                    sq_head,
                    cq_id,
                    nsid: 0,
                    op: PendingOp::NvmReadDmaWrite { num_blocks: 0 },
                },
            );
            return ;
        }
        if len as u64 > 2 * NVME_PAGE_SIZE {
            let page: usize = 4096;
            let total: usize = (len - 1) / page + 1;
            let mut data_pages: Vec<Option<Vec<u8>>> = Vec::new();
            let mut i: usize = 0;
            while i < total
                invariant
                    i <= total,
                    page == 4096,
                    len == data@.len(),
                    8192 < len,
                    total == page_count(len as int),
                    data_pages@.len() == i,
                    forall|j: int|
                        0 <= j < i ==> (#[trigger] data_pages@[j]) is Some && data_pages@[j]->0@
                            == page_bytes(data@, j),
                decreases total - i,
            {
                let off: usize = i * page;
                let end: usize = if len - off > page {
                    off + page
                } else {
                    len
                };
                data_pages.push(Some(copy_range(&data, off, end)));
                i += 1;
            }
            let ghost pages = data_pages@;
            let op_id: u64 = self.alloc_op_id();
            let op = PrpListOp {
                sq_id,
                cid,
                sq_head,
                cq_id,
                nsid: 0,
                lba: 0,
                num_blocks: 0,
                is_write: false,
                prp1_gpa: prp1,
                list_entries: None,
                total_pages: total as u32,
                pages_done: 0,
                data_pages,
            };
            assert(pages_of(op) =~= split_pages(data@));
            self.prp_list_ops.insert(op_id, op);
            let tok: u64 = ctx.dma_read(prp2, NVME_PAGE_SIZE as u32);
            self.pending_ios.insert(
                tok,
                PendingIo {
                    sq_id,
                    cid,
                    sq_head,
                    cq_id,
                    nsid: 0,
                    op: PendingOp::NvmReadPrpListFetch { op_id },
                },
            );
            return ;
        }
        let tok1: u64 = ctx.dma_write(prp1, copy_range(&data, 0, 4096));
        self.pending_ios.insert(
            tok1,
            PendingIo {
                sq_id,
                cid,
                sq_head,
                cq_id,
                nsid: 0,
                op: PendingOp::NvmReadDualPrpSiblingHalf,
            },
        );
        assert(self.commands(ctx@) =~= s.awaits(
            s.link.trace.write(prp1, data@.take(4096)),
            sq_id,
            cid,
            sq_head,
            cq_id,
            PendingOp::NvmReadDualPrpSiblingHalf,
        ));
        let tok2: u64 = ctx.dma_write(prp2, copy_range(&data, 4096, len));
        self.pending_ios.insert(
            tok2,
            PendingIo {
                sq_id,
                cid,
                sq_head,
                cq_id,
                nsid: 0,
                op: PendingOp::NvmReadDmaWrite { num_blocks: 0 },
            },
        );
        assert(data@.subrange(4096, len as int) =~= data@.skip(4096));
    }

    /// The highest token of a command transfer in flight; 0 where there is none.
    pub fn nvme_token_high_water(&self) -> (r: u64)
        ensures
            forall|t: u64| #[trigger] self.pending_ios@.contains_key(t) ==> t <= r,
            self.pending_ios@.contains_key(r) || (r == 0 && self.pending_ios@.dom() == Set::<
                u64,
            >::empty()),
    {
        let mut high: u64 = 0;
        let mut any: bool = false;
        for (k, _e) in it: self.pending_ios.iter()
            invariant
                any ==> self.pending_ios@.contains_key(high),
                !any ==> high == 0 && it.index() == 0,
                forall|i: int| 0 <= i < it.index() ==> *(#[trigger] it.seq()[i]).0 <= high,
        {
            if !any || *k > high {
                high = *k;
                any = true;
            }
        }
        proof {
            if !any {
                assert(self.pending_ios@.dom() =~= Set::<u64>::empty());
            }
        }
        high
    }
}

} // verus!
