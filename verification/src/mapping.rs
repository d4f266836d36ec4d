//! The backing store of a namespace as a memory mapping.
use vstd::prelude::*;

verus! {

/// `memmap2::MmapMut`, the mapping of a backing file.
#[verifier::external_type_specification]
#[verifier::external_body]
pub struct ExMmapMut(memmap2::MmapMut);

/// The bytes that a mapping holds: the slice that it dereferences to. That they change
/// only through the mapping is what whoever makes one vouches for: `MmapMut::map_mut` is
/// unsafe to call where anyone else might change the file.
pub uninterp spec fn mapping_bytes(m: memmap2::MmapMut) -> Seq<u8>;

/// Calls `<MmapMut as Deref>::deref`, which gives the mapped bytes, all of them.
#[verifier::external_body]
pub(crate) fn mapping_slice(m: &memmap2::MmapMut) -> (s: &[u8])
    ensures
        s@ == mapping_bytes(*m),
{
    core::ops::Deref::deref(m)
}

/// Calls `<MmapMut as DerefMut>::deref_mut`: the slice holds the mapped bytes, and
/// what is written through it is what the mapping holds afterwards.
#[verifier::external_body]
pub(crate) fn mapping_slice_mut(m: &mut memmap2::MmapMut) -> (s: &mut [u8])
    ensures
        s@ == mapping_bytes(*old(m)),
        mapping_bytes(*final(m)) == final(s)@,
{
    core::ops::DerefMut::deref_mut(m)
}

/// Overwrites the bytes of `s` from `offset` on with `data`.
pub(crate) fn copy_into(s: &mut [u8], offset: usize, data: &[u8])
    requires
        offset + data@.len() <= old(s)@.len(),
    ensures
        final(s)@ == overwritten(old(s)@, offset as int, data@),
{
    let ghost orig = s@;
    let n: usize = s.len();
    let mut i: usize = 0;
    while i < data.len()
        invariant
            i <= data.len(),
            offset + data.len() <= n,
            n == orig.len(),
            s@.len() == orig.len(),
            forall|j: int|
                0 <= j < n ==> s@[j] == (if offset <= j < offset + i {
                    data@[j - offset]
                } else {
                    orig[j]
                }),
        decreases data.len() - i,
    {
        s[offset + i] = data[i];
        i += 1;
    }
    assert(s@ =~= overwritten(orig, offset as int, data@));
}

/// `s` with the bytes from `offset` on replaced by `data`.
pub open spec fn overwritten(s: Seq<u8>, offset: int, data: Seq<u8>) -> Seq<u8> {
    s.subrange(0, offset) + data + s.subrange(offset + data.len(), s.len() as int)
}

/// Reading back the bytes just written gives them, and every other byte is as before.
pub proof fn law_overwritten(s: Seq<u8>, offset: int, data: Seq<u8>)
    requires
        0 <= offset,
        offset + data.len() <= s.len(),
    ensures
        overwritten(s, offset, data).len() == s.len(),
        overwritten(s, offset, data).subrange(offset, offset + data.len()) == data,
        forall|i: int|
            0 <= i < s.len() && !(offset <= i < offset + data.len())
                ==> #[trigger] overwritten(s, offset, data)[i] == s[i],
{
    assert(overwritten(s, offset, data).subrange(offset, offset + data.len()) =~= data);
}

} // verus!
