//! Namespaces and what they hold.
use vstd::arithmetic::power2::pow2;
use vstd::prelude::*;

use crate::controller::namespace;
use crate::controller::namespace::{FlushStep, Namespace};
use crate::controller::NvmeController;
use crate::laws::compare;
use crate::laws::dispatch;
use crate::mapping;

verus! {

/// The sizes of a block follow from its format.
pub proof fn law_block_sizes(ns: &Namespace, data: u64, block: u64, meta: u64, pi: bool, plain: bool)
    requires
        call_ensures(Namespace::data_bytes, (ns,), data),
        call_ensures(Namespace::block_bytes, (ns,), block),
        call_ensures(Namespace::meta_bytes, (ns,), meta),
        call_ensures(Namespace::pi_enabled, (ns,), pi),
        call_ensures(Namespace::is_plain, (ns,), plain),
    ensures
        data == pow2(ns.lbads as nat),
        ns.lbads == 9 ==> data == 512,
        ns.lbads == 12 ==> data == 4096,
        block == data + meta,
        meta == ns.meta_size,
        pi <==> ns.pi_type != 0,
        plain <==> meta == 0 && !pi && (data == 512 || data == 4096) && compare::plain_blocks(*ns),
        plain <==> compare::plain_blocks(*ns),
{
    vstd::arithmetic::power2::lemma2_to64();
}

/// The mapped bytes of `ns`.
pub open spec fn mapped_bytes(ns: Namespace) -> Seq<u8> {
    mapping::mapping_bytes(ns.mmap->0)
}

/// The mapping covers a range where it reaches as far as its end.
pub proof fn law_mapping_covers(ns: &Namespace, offset: u64, len: usize, r: bool)
    requires
        call_ensures(Namespace::covers, (ns, offset, len), r),
    ensures
        r <==> compare::mapped_to(*ns, offset + len),
{
}

/// A read that the mapping covers brings the mapped bytes of the range, each to its place;
/// any other one leaves the buffer as it was.
pub proof fn law_read_brings_the_bytes(ns: &Namespace, buf: &mut [u8], offset: u64, r: bool, i: int)
    requires
        call_ensures(Namespace::read_at, (ns, buf, offset), r),
    ensures
        r <==> compare::mapped_to(*ns, offset + old(buf)@.len()),
        final(buf)@.len() == old(buf)@.len(),
        0 <= i < old(buf)@.len() ==> final(buf)@[i] == (if r {
            mapped_bytes(*ns)[offset + i]
        } else {
            old(buf)@[i]
        }),
{
}

/// A write that the mapping covers replaces the bytes of the range and no other byte; any
/// other write changes nothing.
pub proof fn law_write_replaces_the_bytes(ns: &mut Namespace, buf: &[u8], offset: u64, r: bool, i: int)
    requires
        call_ensures(Namespace::write_at, (ns, buf, offset), r),
    ensures
        r <==> compare::mapped_to(*old(ns), offset + buf@.len()),
        !r ==> *final(ns) == *old(ns),
        r ==> {
            let (b, a) = (mapped_bytes(*old(ns)), mapped_bytes(*final(ns)));
            &&& final(ns).mmap is Some
            &&& a.len() == b.len()
            &&& 0 <= i < b.len() ==> a[i] == (if offset <= i < offset + buf@.len() {
                buf@[i - offset]
            } else {
                b[i]
            })
        },
        *final(ns) == (Namespace { mmap: final(ns).mmap, ..*old(ns) }),
{
    if r {
        let b = mapped_bytes(*old(ns));
        mapping::law_overwritten(b, offset as int, buf@);
        let o = mapping::overwritten(b, offset as int, buf@);
        if offset <= i < offset + buf@.len() {
            assert(o.subrange(offset as int, offset + buf@.len())[i - offset] == o[i]);
        } else if 0 <= i < b.len() {
            assert(o[i] == b[i]);
        }
    }
}

/// What was written is what is read, in the same range and through the same namespace.
pub proof fn law_what_is_written_is_read(
    ns: &mut Namespace,
    data: &[u8],
    offset: u64,
    wrote: bool,
    buf: &mut [u8],
    read: bool,
)
    requires
        call_ensures(Namespace::write_at, (ns, data, offset), wrote),
        call_ensures(Namespace::read_at, (final(ns), buf, offset), read),
        old(buf)@.len() == data@.len(),
    ensures
        wrote == read,
        wrote ==> final(buf)@ == data@,
{
    if wrote {
        mapping::law_overwritten(mapped_bytes(*old(ns)), offset as int, data@);
    }
}

/// A flush fails where it is made to, and else starts with the mapping, or with the file
/// where there is none. What follows the mapping is nothing, or, where it failed, the file.
pub proof fn law_flush_steps(ns: &Namespace, first: FlushStep, ok: bool, next: Option<FlushStep>)
    requires
        call_ensures(Namespace::flush, (ns,), first),
        call_ensures(namespace::flush_after_mapping, (ok,), next),
    ensures
        first is Fail <==> ns.force_flush_err,
        first is SyncMapping <==> !ns.force_flush_err && ns.mmap is Some,
        first is SyncFile <==> !ns.force_flush_err && ns.mmap is None,
        ok ==> next is None,
        !ok ==> next == Some(FlushStep::SyncFile),
{
}

/// The namespace that is handed out to be changed is the one that was named, and no other
/// one changes.
pub proof fn law_namespace_is_changed_in_place(
    c: &mut NvmeController,
    nsid: u32,
    r: Option<&mut Namespace>,
    other: u32,
)
    requires
        call_ensures(NvmeController::ns_mut, (c, nsid), r),
    ensures
        r is Some <==> dispatch::is_served(old(c).namespaces@, nsid),
        r is Some ==> {
            &&& *r->0 == old(c).namespaces@[nsid]
            &&& final(c).namespaces@[nsid] == *final(r->0)
        },
        final(c).namespaces@.contains_key(other) <==> old(c).namespaces@.contains_key(other),
        other != nsid || r is None ==> final(c).namespaces@[other] == old(c).namespaces@[other],
        *final(c) == (NvmeController { namespaces: final(c).namespaces, ..*old(c) }),
{
}

} // verus!
