//! Fixed-width integers in byte order: little-endian for everything that
//! crosses the PCIe link, big-endian for protection information.
use vstd::prelude::*;

verus! {

/// The little-endian `u16` at `at`.
pub open spec fn le16_at(s: Seq<u8>, at: int) -> u16 {
    (s[at] as u16) | ((s[at + 1] as u16) << 8)
}

/// The little-endian `u32` at `at`.
pub open spec fn le32_at(s: Seq<u8>, at: int) -> u32 {
    (s[at] as u32) | ((s[at + 1] as u32) << 8) | ((s[at + 2] as u32) << 16) | ((s[at + 3] as u32)
        << 24)
}

/// The little-endian `u64` at `at`: low word first.
pub open spec fn le64_at(s: Seq<u8>, at: int) -> u64 {
    (le32_at(s, at) as u64) | ((le32_at(s, at + 4) as u64) << 32)
}

/// The big-endian `u16` at `at`.
pub open spec fn be16_at(s: Seq<u8>, at: int) -> u16 {
    ((s[at] as u16) << 8) | (s[at + 1] as u16)
}

/// The big-endian `u32` at `at`.
pub open spec fn be32_at(s: Seq<u8>, at: int) -> u32 {
    ((be16_at(s, at) as u32) << 16) | (be16_at(s, at + 2) as u32)
}

/// The two bytes of `x`, least significant first.
pub open spec fn le16_bytes(x: u16) -> Seq<u8> {
    seq![(x & 0xff) as u8, (x >> 8) as u8]
}

/// The four bytes of `x`, least significant first.
pub open spec fn le32_bytes(x: u32) -> Seq<u8> {
    seq![
        (x & 0xff) as u8,
        ((x >> 8) & 0xff) as u8,
        ((x >> 16) & 0xff) as u8,
        (x >> 24) as u8,
    ]
}

/// The eight bytes of `x`, least significant first.
pub open spec fn le64_bytes(x: u64) -> Seq<u8> {
    le32_bytes((x & 0xffff_ffff) as u32) + le32_bytes((x >> 32) as u32)
}

/// The two bytes of `x`, most significant first.
pub open spec fn be16_bytes(x: u16) -> Seq<u8> {
    seq![(x >> 8) as u8, (x & 0xff) as u8]
}

/// The four bytes of `x`, most significant first.
pub open spec fn be32_bytes(x: u32) -> Seq<u8> {
    be16_bytes((x >> 16) as u16) + be16_bytes((x & 0xffff) as u16)
}

pub fn read_le16(s: &[u8], at: usize) -> (r: u16)
    requires
        at + 2 <= s@.len(),
    ensures
        r == le16_at(s@, at as int),
{
    (s[at] as u16) | ((s[at + 1] as u16) << 8)
}

pub fn read_le32(s: &[u8], at: usize) -> (r: u32)
    requires
        at + 4 <= s@.len(),
    ensures
        r == le32_at(s@, at as int),
{
    (s[at] as u32) | ((s[at + 1] as u32) << 8) | ((s[at + 2] as u32) << 16) | ((s[at + 3] as u32)
        << 24)
}

pub fn read_le64(s: &[u8], at: usize) -> (r: u64)
    requires
        at + 8 <= s@.len(),
    ensures
        r == le64_at(s@, at as int),
{
    assert(at + 8 <= s.len());
    (read_le32(s, at) as u64) | ((read_le32(s, at + 4) as u64) << 32)
}

pub fn push_le16(v: &mut Vec<u8>, x: u16)
    ensures
        final(v)@ == old(v)@ + le16_bytes(x),
{
    v.push((x & 0xff) as u8);
    v.push((x >> 8) as u8);
    assert(v@ =~= old(v)@ + le16_bytes(x));
}

pub fn push_le32(v: &mut Vec<u8>, x: u32)
    ensures
        final(v)@ == old(v)@ + le32_bytes(x),
{
    v.push((x & 0xff) as u8);
    v.push(((x >> 8) & 0xff) as u8);
    v.push(((x >> 16) & 0xff) as u8);
    v.push((x >> 24) as u8);
    assert(v@ =~= old(v)@ + le32_bytes(x));
}

/// The four bytes of `x`, least significant first.
pub fn u32_to_le(x: u32) -> (v: Vec<u8>)
    ensures
        v@ == le32_bytes(x),
{
    let mut v: Vec<u8> = Vec::new();
    push_le32(&mut v, x);
    assert(v@ =~= le32_bytes(x));
    v
}

/// Whether `a` and `b` hold the same bytes.
pub fn same_bytes(a: &[u8], b: &[u8]) -> (r: bool)
    ensures
        r == (a@ == b@),
{
    if a.len() != b.len() {
        return false;
    }
    let mut i: usize = 0;
    while i < a.len()
        invariant
            i <= a@.len(),
            a@.len() == b@.len(),
            forall|j: int| 0 <= j < i ==> a@[j] == b@[j],
        decreases a@.len() - i,
    {
        if a[i] != b[i] {
            return false;
        }
        i += 1;
    }
    assert(a@ =~= b@);
    true
}

/// Reading back a written `u16` gives the value written.
pub proof fn law_le16_round_trip(x: u16)
    ensures
        le16_at(le16_bytes(x), 0) == x,
{
    assert((((x & 0xff) as u8) as u16) | ((((x >> 8) as u8) as u16) << 8) == x) by (bit_vector);
}

/// Reading back a written `u32` gives the value written.
pub proof fn law_le32_round_trip(x: u32)
    ensures
        le32_at(le32_bytes(x), 0) == x,
{
    lemma_le32_split(x);
}

proof fn lemma_le32_split(x: u32)
    ensures
        (((x & 0xff) as u8) as u32) | (((((x >> 8) & 0xff) as u8) as u32) << 8) | (((((x >> 16)
            & 0xff) as u8) as u32) << 16) | ((((x >> 24) as u8) as u32) << 24) == x,
{
    assert((((x & 0xff) as u8) as u32) | (((((x >> 8) & 0xff) as u8) as u32) << 8) | (((((x >> 16)
        & 0xff) as u8) as u32) << 16) | ((((x >> 24) as u8) as u32) << 24) == x) by (bit_vector);
}

/// Reading back a written `u64` gives the value written.
pub proof fn law_le64_round_trip(x: u64)
    ensures
        le64_at(le64_bytes(x), 0) == x,
{
    let lo = (x & 0xffff_ffff) as u32;
    let hi = (x >> 32) as u32;
    lemma_le32_split(lo);
    lemma_le32_split(hi);
    assert(le32_at(le64_bytes(x), 0) == lo);
    assert(le32_at(le64_bytes(x), 4) == hi);
    assert((((x & 0xffff_ffff) as u32) as u64) | ((((x >> 32) as u32) as u64) << 32) == x)
        by (bit_vector);
}

/// Writing the `u32` read from four bytes gives those bytes.
pub proof fn law_le32_bytes_of_read(s: Seq<u8>)
    requires
        s.len() == 4,
    ensures
        le32_bytes(le32_at(s, 0)) == s,
{
    let (a, b, c, d) = (s[0], s[1], s[2], s[3]);
    let x = le32_at(s, 0);
    assert((((a as u32) | ((b as u32) << 8) | ((c as u32) << 16) | ((d as u32) << 24)) & 0xff) as u8
        == a && (((((a as u32) | ((b as u32) << 8) | ((c as u32) << 16) | ((d as u32) << 24)) >> 8)
        & 0xff) as u8) == b && (((((a as u32) | ((b as u32) << 8) | ((c as u32) << 16) | ((d as u32)
        << 24)) >> 16) & 0xff) as u8) == c && ((((a as u32) | ((b as u32) << 8) | ((c as u32) << 16)
        | ((d as u32) << 24)) >> 24) as u8) == d) by (bit_vector);
    assert(le32_bytes(x) =~= s);
}

/// Reading back a big-endian `u16` gives the value written.
pub proof fn law_be16_round_trip(x: u16)
    ensures
        be16_at(be16_bytes(x), 0) == x,
{
    assert((((x >> 8) as u8) as u16) << 8 | (((x & 0xff) as u8) as u16) == x) by (bit_vector);
}

/// Writing the `u16` read from two big-endian bytes gives those bytes.
pub proof fn law_be16_bytes_of_read(s: Seq<u8>)
    requires
        s.len() == 2,
    ensures
        be16_bytes(be16_at(s, 0)) == s,
{
    let (a, b) = (s[0], s[1]);
    assert(((((a as u16) << 8) | (b as u16)) >> 8) as u8 == a && ((((a as u16) << 8) | (b as u16))
        & 0xff) as u8 == b) by (bit_vector);
    assert(be16_bytes(be16_at(s, 0)) =~= s);
}

/// Reading back a big-endian `u32` gives the value written.
pub proof fn law_be32_round_trip(x: u32)
    ensures
        be32_at(be32_bytes(x), 0) == x,
{
    let hi = (x >> 16) as u16;
    let lo = (x & 0xffff) as u16;
    law_be16_round_trip(hi);
    law_be16_round_trip(lo);
    assert(be16_at(be32_bytes(x), 0) == hi);
    assert(be16_at(be32_bytes(x), 2) == lo);
    assert((((x >> 16) as u16) as u32) << 16 | (((x & 0xffff) as u16) as u32) == x) by (bit_vector);
}

/// Writing the `u32` read from four big-endian bytes gives those bytes.
pub proof fn law_be32_bytes_of_read(s: Seq<u8>)
    requires
        s.len() == 4,
    ensures
        be32_bytes(be32_at(s, 0)) == s,
{
    let hi = be16_at(s, 0);
    let lo = be16_at(s, 2);
    assert((((hi as u32) << 16) | (lo as u32)) >> 16 == hi && ((((hi as u32) << 16) | (lo as u32))
        & 0xffff) == lo) by (bit_vector);
    law_be16_bytes_of_read(s.subrange(0, 2));
    law_be16_bytes_of_read(s.subrange(2, 4));
    assert(be16_at(s.subrange(0, 2), 0) == hi);
    assert(be16_at(s.subrange(2, 4), 0) == lo);
    assert(be32_bytes(be32_at(s, 0)) =~= s.subrange(0, 2) + s.subrange(2, 4));
    assert(s.subrange(0, 2) + s.subrange(2, 4) =~= s);
}

} // verus!
