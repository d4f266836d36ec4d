//! How a transfer is laid out over physical region pages.
//!
//! PRP1 may point into the middle of a page; every further pointer is page aligned. The
//! first segment ends with the page that PRP1 points into, the next ones are whole
//! pages, and the last one is what remains.
use vstd::prelude::*;

use crate::regs::NVME_PAGE_SIZE;

verus! {

/// How many pointers a transfer needs.
#[derive(Debug, Clone, Copy, PartialEq, Eq, Structural)]
pub enum PrpTier {
    /// PRP1.
    Single,
    /// PRP1, and PRP2 as the second data page.
    Dual,
    /// PRP1, and PRP2 as the address of a PRP list.
    List,
}

/// What PRP2 is.
#[derive(Debug, Clone, Copy, PartialEq, Eq, Structural)]
pub enum Prp2Role {
    /// Nothing: any value will do.
    Unused,
    /// The address of the second data page.
    DataPage,
    /// The address of a PRP list.
    ListPage,
}

/// The segments of a transfer that are known before a PRP list is read.
#[derive(Debug, Clone, Copy, PartialEq, Eq, Structural)]
pub enum DispatchSegs {
    Single { prp1: u64, len: u32 },
    Dual { prp1: u64, len0: u32, prp2: u64, len1: u32 },
    List { prp1: u64, first_len: u32 },
}

/// Bytes in the first segment of `total` bytes that start at `offset` in a page.
pub open spec fn first_len(offset: int, total: int) -> int {
    if total < 4096 - offset {
        total
    } else {
        4096 - offset
    }
}

/// Segments of `total` bytes that start at `offset` in a page.
pub open spec fn segment_count(offset: int, total: int) -> int {
    if total == 0 {
        0
    } else if total <= first_len(offset, total) {
        1
    } else {
        1 + (total - first_len(offset, total) + 4095) / 4096
    }
}

/// Where segment `i` starts in the stream of bytes.
pub open spec fn segment_start(i: int, offset: int, total: int) -> int {
    if i == 0 {
        0
    } else {
        first_len(offset, total) + (i - 1) * 4096
    }
}

/// Bytes in segment `i`: up to the start of the next one, or to the end of the stream.
pub open spec fn segment_len(i: int, offset: int, total: int) -> int {
    let start = segment_start(i, offset, total);
    let next = segment_start(i + 1, offset, total);
    if start >= total {
        0
    } else if next > total {
        total - start
    } else {
        next - start
    }
}

/// See `PrpTier`: PRP1 alone reaches to the end of its page, PRP2 adds a page.
pub open spec fn tier_of(offset: int, total: int) -> PrpTier {
    if total <= 4096 - offset {
        PrpTier::Single
    } else if total <= 4096 - offset + 4096 {
        PrpTier::Dual
    } else {
        PrpTier::List
    }
}

/// See `Prp2Role`.
pub open spec fn role_of(t: PrpTier) -> Prp2Role {
    match t {
        PrpTier::Single => Prp2Role::Unused,
        PrpTier::Dual => Prp2Role::DataPage,
        PrpTier::List => Prp2Role::ListPage,
    }
}

/// Where in its page PRP1 points.
pub fn prp1_offset(prp1: u64) -> (r: u64)
    ensures
        r == prp1 % 4096,
{
    assert(prp1 & 4095 == prp1 % 4096) by (bit_vector);
    prp1 & (NVME_PAGE_SIZE - 1)
}

/// Bytes in the first segment.
pub fn first_seg_len(offset: u64, total_len: u64) -> (r: u64)
    requires
        offset <= 4096,
    ensures
        r == first_len(offset as int, total_len as int),
{
    let room: u64 = NVME_PAGE_SIZE - offset;
    if total_len < room {
        total_len
    } else {
        room
    }
}

/// How many segments there are.
pub fn total_pages(offset: u64, total_len: u64) -> (r: u32)
    requires
        offset <= 4096,
        segment_count(offset as int, total_len as int) <= u32::MAX,
    ensures
        r == segment_count(offset as int, total_len as int),
{
    if total_len == 0 {
        return 0;
    }
    let first: u64 = first_seg_len(offset, total_len);
    if total_len <= first {
        1
    } else {
        let rest: u64 = total_len - first;
        let pages: u64 = (rest - 1) / NVME_PAGE_SIZE + 1;
        1 + pages as u32
    }
}

/// Bytes in segment `page_idx`; 0 beyond the last one.
pub fn page_size(page_idx: u32, offset: u64, total_len: u64) -> (r: u32)
    requires
        offset <= 4096,
    ensures
        r == segment_len(page_idx as int, offset as int, total_len as int),
{
    let first: u64 = first_seg_len(offset, total_len);
    if page_idx == 0 {
        return first as u32;
    }
    let start: u64 = first + (page_idx as u64 - 1) * NVME_PAGE_SIZE;
    if start >= total_len {
        return 0;
    }
    let rest: u64 = total_len - start;
    if rest < NVME_PAGE_SIZE {
        rest as u32
    } else {
        NVME_PAGE_SIZE as u32
    }
}

/// How many pointers the transfer needs.
pub fn tier(offset: u64, total_len: u64) -> (r: PrpTier)
    requires
        offset <= 4096,
    ensures
        r == tier_of(offset as int, total_len as int),
{
    let room: u64 = NVME_PAGE_SIZE - offset;
    if total_len <= room {
        PrpTier::Single
    } else if total_len <= room + NVME_PAGE_SIZE {
        PrpTier::Dual
    } else {
        PrpTier::List
    }
}

/// What PRP2 is for the transfer.
pub fn prp2_role(offset: u64, total_len: u64) -> (r: Prp2Role)
    requires
        offset <= 4096,
    ensures
        r == role_of(tier_of(offset as int, total_len as int)),
{
    match tier(offset, total_len) {
        PrpTier::Single => Prp2Role::Unused,
        PrpTier::Dual => Prp2Role::DataPage,
        PrpTier::List => Prp2Role::ListPage,
    }
}

/// The segments of a transfer of `total_len` bytes that are known at once.
pub fn dispatch_segs(prp1: u64, prp2: u64, total_len: u64) -> (r: DispatchSegs)
    ensures
        ({
            let offset = (prp1 % 4096) as int;
            let total = total_len as int;
            r == (match tier_of(offset, total) {
                PrpTier::Single => DispatchSegs::Single { prp1, len: total as u32 },
                PrpTier::Dual => DispatchSegs::Dual {
                    prp1,
                    len0: segment_len(0, offset, total) as u32,
                    prp2,
                    len1: segment_len(1, offset, total) as u32,
                },
                PrpTier::List => DispatchSegs::List {
                    prp1,
                    first_len: segment_len(0, offset, total) as u32,
                },
            })
        }),
{
    let off: u64 = prp1_offset(prp1);
    match tier(off, total_len) {
        PrpTier::Single => DispatchSegs::Single { prp1, len: total_len as u32 },
        PrpTier::Dual => {
            let len0: u32 = first_seg_len(off, total_len) as u32;
            DispatchSegs::Dual { prp1, len0, prp2, len1: (total_len - len0 as u64) as u32 }
        },
        PrpTier::List => DispatchSegs::List {
            prp1,
            first_len: first_seg_len(off, total_len) as u32,
        },
    }
}

/// Bytes in the first `n` segments.
pub open spec fn segments_sum(n: nat, offset: int, total: int) -> int
    decreases n,
{
    if n == 0 {
        0
    } else {
        segments_sum((n - 1) as nat, offset, total) + segment_len(n - 1, offset, total)
    }
}

proof fn lemma_segments_sum(n: nat, offset: int, total: int)
    requires
        0 <= offset <= 4096,
        0 <= total,
    ensures
        segments_sum(n, offset, total) == (if segment_start(n as int, offset, total) < total {
            segment_start(n as int, offset, total)
        } else {
            total
        }),
    decreases n,
{
    if n > 0 {
        lemma_segments_sum((n - 1) as nat, offset, total);
    }
}

/// The segments together hold the whole transfer, and nothing more.
pub proof fn law_segments_sum_to_total(offset: int, total: int)
    requires
        0 <= offset <= 4096,
        0 <= total,
    ensures
        segments_sum(segment_count(offset, total) as nat, offset, total) == total,
{
    let n = segment_count(offset, total);
    lemma_segments_sum(n as nat, offset, total);
    if n >= 2 {
        assert(first_len(offset, total) + (n - 1) * 4096 >= total);
    }
}

/// Every segment between the first and the last is a whole page, and there is nothing
/// beyond the last.
pub proof fn law_inner_segments_are_pages(i: int, offset: int, total: int)
    requires
        0 <= offset <= 4096,
        0 <= total,
    ensures
        1 <= i < segment_count(offset, total) - 1 ==> segment_len(i, offset, total) == 4096,
        i >= segment_count(offset, total) && i >= 0 ==> segment_len(i, offset, total) == 0,
{
}

/// With an aligned PRP1 the segments are the pages of the transfer: as many as it takes,
/// each of them full but for the last.
pub proof fn law_aligned_segments(i: int, total: int)
    requires
        0 <= total,
    ensures
        segment_count(0, total) == (total + 4095) / 4096,
        0 <= i < segment_count(0, total) ==> segment_len(i, 0, total) == (if i
            == segment_count(0, total) - 1 {
            total - i * 4096
        } else {
            4096
        }),
{
}

/// The number of segments tells how many pointers are needed, for any offset within a
/// page.
pub proof fn law_tier_by_segments(offset: int, total: int)
    requires
        0 <= offset < 4096,
        0 <= total,
    ensures
        tier_of(offset, total) == PrpTier::Single <==> segment_count(offset, total) <= 1,
        tier_of(offset, total) == PrpTier::Dual <==> segment_count(offset, total) == 2,
        tier_of(offset, total) == PrpTier::List <==> segment_count(offset, total) >= 3,
{
}

} // verus!
