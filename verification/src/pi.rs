//! Protection information: the CRC over a block, and the tuple that carries it.
use vstd::prelude::*;

use crate::bytes;

verus! {

/// Remainder of one more bit: the next bit has already been added at the top.
pub open spec fn crc_bit(crc: u16) -> u16 {
    if crc & 0x8000 != 0 {
        (crc << 1) ^ 0x8bb7
    } else {
        crc << 1
    }
}

/// Remainder of eight more bits, which have already been added at the top.
pub open spec fn crc_eight_bits(crc: u16) -> u16 {
    let a = crc_bit(crc);
    let b = crc_bit(a);
    let c = crc_bit(b);
    let d = crc_bit(c);
    let e = crc_bit(d);
    let f = crc_bit(e);
    let g = crc_bit(f);
    crc_bit(g)
}

/// Remainder after one more byte.
pub open spec fn crc_byte(crc: u16, b: u8) -> u16 {
    crc_eight_bits(crc ^ ((b as u16) << 8))
}

/// Remainder of `data`, most significant bit first, in the division by
/// `x^16 + x^15 + x^11 + x^9 + x^8 + x^7 + x^5 + x^4 + x^2 + x + 1`, bit by bit; the
/// register starts at 0.
pub open spec fn crc_of(data: Seq<u8>) -> u16
    decreases data.len(),
{
    if data.len() == 0 {
        0
    } else {
        crc_byte(crc_of(data.drop_last()), data.last())
    }
}

/// The remainder of each byte.
fn crc16_table() -> (r: [u16; 256])
    ensures
        forall|i: u8| #![trigger r@[i as int]] r@[i as int] == crc_eight_bits((i as u16) << 8),
{
    let mut table: [u16; 256] = [0u16; 256];
    let mut i: usize = 0;
    while i < 256
        invariant
            i <= 256,
            forall|j: u8|
                #![trigger table@[j as int]]
                j < i ==> table@[j as int] == crc_eight_bits((j as u16) << 8),
        decreases 256 - i,
    {
        let first: u16 = (i as u16) << 8;
        let mut crc: u16 = first;
        let mut bit: u32 = 0;
        while bit < 8
            invariant
                bit <= 8,
                crc == crc_bits(first, bit as nat),
            decreases 8 - bit,
        {
            crc = if crc & 0x8000 != 0 {
                (crc << 1) ^ 0x8bb7
            } else {
                crc << 1
            };
            bit += 1;
        }
        proof {
            reveal_with_fuel(crc_bits, 9);
        }
        table[i] = crc;
        i += 1;
    }
    table
}

/// Remainder of `n` more bits, which have already been added at the top.
spec fn crc_bits(crc: u16, n: nat) -> u16
    decreases n,
{
    if n == 0 {
        crc
    } else {
        crc_bit(crc_bits(crc, (n - 1) as nat))
    }
}

/// A byte can be taken in at once: the low half of the register moves up, and what the
/// high half and the byte leave is added.
proof fn lemma_table_step(crc: u16, b: u8)
    ensures
        ((crc >> 8) ^ (b as u16)) & 0xff < 256,
        (crc << 8) ^ crc_eight_bits((((crc >> 8) ^ (b as u16)) & 0xff) << 8) == crc_byte(crc, b),
{
    assert(((crc >> 8) ^ (b as u16)) & 0xff < 256 && (crc << 8) ^ crc_eight_bits((((crc >> 8) ^ (
    b as u16)) & 0xff) << 8) == crc_byte(crc, b)) by (bit_vector);
}

/// The CRC of `data`; see `crc_of`.
pub fn crc16_t10dif(data: &[u8]) -> (r: u16)
    ensures
        r == crc_of(data@),
{
    let table = crc16_table();
    let mut crc: u16 = 0;
    let mut i: usize = 0;
    while i < data.len()
        invariant
            i <= data@.len(),
            crc == crc_of(data@.take(i as int)),
            forall|i: u8|
                #![trigger table@[i as int]]
                table@[i as int] == crc_eight_bits((i as u16) << 8),
        decreases data@.len() - i,
    {
        let b: u8 = data[i];
        proof {
            lemma_table_step(crc, b);
            assert(data@.take(i + 1).drop_last() =~= data@.take(i as int));
        }
        let idx: u16 = ((crc >> 8) ^ (b as u16)) & 0xff;
        let t: u16 = table[idx as usize];
        assert(t == crc_eight_bits(((idx as u8) as u16) << 8)) by {
            assert(table@[(idx as u8) as int] == t);
        }
        crc = (crc << 8) ^ t;
        i += 1;
    }
    assert(data@.take(data@.len() as int) =~= data@);
    crc
}

/// The tuple of protection information of a block: eight bytes, big-endian.
#[derive(Debug, Clone, Copy, PartialEq, Eq, Structural)]
pub struct PiTuple {
    /// CRC over the data.
    pub guard: u16,
    /// Free for the host to use.
    pub app_tag: u16,
    /// Tied to the block address, for types 1 and 2.
    pub ref_tag: u32,
}

/// The tuple in eight bytes.
pub open spec fn tuple_at(b: Seq<u8>) -> PiTuple {
    PiTuple {
        guard: bytes::be16_at(b, 0),
        app_tag: bytes::be16_at(b, 2),
        ref_tag: bytes::be32_at(b, 4),
    }
}

/// The eight bytes of a tuple.
pub open spec fn tuple_bytes(t: PiTuple) -> Seq<u8> {
    bytes::be16_bytes(t.guard) + bytes::be16_bytes(t.app_tag) + bytes::be32_bytes(t.ref_tag)
}

/// Whether the reference tag is tied to the block address.
pub open spec fn ref_tag_checked(pi_type: u8) -> bool {
    pi_type == 1 || pi_type == 2
}

/// The tuple of block `lba` with `data`: the CRC, no application tag, and for types 1
/// and 2 the low half of the block address.
pub open spec fn tuple_of(data: Seq<u8>, lba: u64, pi_type: u8) -> PiTuple {
    PiTuple {
        guard: crc_of(data),
        app_tag: 0,
        ref_tag: if ref_tag_checked(pi_type) {
            (lba % 0x1_0000_0000) as u32
        } else {
            0
        },
    }
}

/// Which parts of a tuple are checked.
#[derive(Debug, Clone, Copy, PartialEq, Eq, Structural)]
pub struct PrChk {
    pub guard: bool,
    pub app_tag: bool,
    pub ref_tag: bool,
}

/// What a check of a tuple found.
#[derive(Debug, Clone, Copy, PartialEq, Eq, Structural)]
pub enum PiCheck {
    Pass,
    GuardFail,
    RefTagFail,
    AppTagFail,
}

/// What a check of `t` against block `lba` with `data` finds: the guard counts before
/// the reference tag, and the application tag is never checked.
pub open spec fn check_of(t: PiTuple, data: Seq<u8>, lba: u64, pi_type: u8, prchk: PrChk) -> PiCheck {
    let expected = tuple_of(data, lba, pi_type);
    if prchk.guard && t.guard != expected.guard {
        PiCheck::GuardFail
    } else if prchk.ref_tag && ref_tag_checked(pi_type) && t.ref_tag != expected.ref_tag {
        PiCheck::RefTagFail
    } else {
        PiCheck::Pass
    }
}

impl PiTuple {
    pub fn from_bytes(b: &[u8; 8]) -> (r: PiTuple)
        ensures
            r == tuple_at(b@),
    {
        PiTuple {
            guard: ((b[0] as u16) << 8) | (b[1] as u16),
            app_tag: ((b[2] as u16) << 8) | (b[3] as u16),
            ref_tag: (((((b[4] as u16) << 8) | (b[5] as u16)) as u32) << 16) | ((((b[6] as u16) << 8)
                | (b[7] as u16)) as u32),
        }
    }

    pub fn to_bytes(self) -> (r: [u8; 8])
        ensures
            r@ == tuple_bytes(self),
    {
        let hi: u16 = (self.ref_tag >> 16) as u16;
        let lo: u16 = (self.ref_tag & 0xffff) as u16;
        let out: [u8; 8] = [
            (self.guard >> 8) as u8,
            (self.guard & 0xff) as u8,
            (self.app_tag >> 8) as u8,
            (self.app_tag & 0xff) as u8,
            (hi >> 8) as u8,
            (hi & 0xff) as u8,
            (lo >> 8) as u8,
            (lo & 0xff) as u8,
        ];
        assert(out@ =~= tuple_bytes(self));
        out
    }

    /// See `tuple_of`.
    pub fn compute(data: &[u8], lba: u64, pi_type: u8) -> (r: PiTuple)
        ensures
            r == tuple_of(data@, lba, pi_type),
    {
        assert((lba & 0xffff_ffff) == lba % 0x1_0000_0000) by (bit_vector);
        PiTuple {
            guard: crc16_t10dif(data),
            app_tag: 0,
            ref_tag: if pi_type == 1 || pi_type == 2 {
                (lba & 0xffff_ffff) as u32
            } else {
                0
            },
        }
    }

    /// See `check_of`.
    pub fn verify(self, data: &[u8], lba: u64, pi_type: u8, prchk: PrChk) -> (r: PiCheck)
        ensures
            r == check_of(self, data@, lba, pi_type, prchk),
    {
        let expected = PiTuple::compute(data, lba, pi_type);
        if prchk.guard && self.guard != expected.guard {
            return PiCheck::GuardFail;
        }
        if prchk.ref_tag && (pi_type == 1 || pi_type == 2) && self.ref_tag != expected.ref_tag {
            return PiCheck::RefTagFail;
        }
        PiCheck::Pass
    }
}

/// Bit `n` of `w`.
pub open spec fn bit_set(w: u32, n: u32) -> bool {
    (w >> n) & 1 != 0
}

impl PrChk {
    /// The checks that command dword 12 asks for: guard in bit 28, application tag in
    /// bit 27, reference tag in bit 26.
    pub fn from_cdw12(cdw12: u32) -> (r: PrChk)
        ensures
            r == (PrChk {
                guard: bit_set(cdw12, 28),
                app_tag: bit_set(cdw12, 27),
                ref_tag: bit_set(cdw12, 26),
            }),
    {
        PrChk {
            guard: (cdw12 >> 28) & 1 != 0,
            app_tag: (cdw12 >> 27) & 1 != 0,
            ref_tag: (cdw12 >> 26) & 1 != 0,
        }
    }

    /// Every check.
    pub fn all() -> (r: PrChk)
        ensures
            r == (PrChk { guard: true, app_tag: true, ref_tag: true }),
    {
        PrChk { guard: true, app_tag: true, ref_tag: true }
    }
}

impl PiCheck {
    /// The status code of a failed check, of the media and data integrity type.
    pub fn to_sc(self) -> (r: Option<u8>)
        ensures
            r == (match self {
                PiCheck::Pass => None::<u8>,
                PiCheck::GuardFail => Some(0x82u8),
                PiCheck::AppTagFail => Some(0x83u8),
                PiCheck::RefTagFail => Some(0x84u8),
            }),
    {
        match self {
            PiCheck::Pass => None,
            PiCheck::GuardFail => Some(0x82),
            PiCheck::AppTagFail => Some(0x83),
            PiCheck::RefTagFail => Some(0x84),
        }
    }
}

/// The tuple that was computed for a block passes every check of that block.
pub proof fn law_computed_tuple_passes(data: Seq<u8>, lba: u64, pi_type: u8, prchk: PrChk)
    ensures
        check_of(tuple_of(data, lba, pi_type), data, lba, pi_type, prchk) == PiCheck::Pass,
{
}

/// A tuple survives the way to bytes and back.
pub proof fn law_tuple_round_trip(t: PiTuple)
    ensures
        tuple_bytes(t).len() == 8,
        tuple_at(tuple_bytes(t)) == t,
{
    let b = tuple_bytes(t);
    bytes::law_be16_round_trip(t.guard);
    bytes::law_be16_round_trip(t.app_tag);
    bytes::law_be32_round_trip(t.ref_tag);
    let r = bytes::be32_bytes(t.ref_tag);
    assert(bytes::be16_at(b, 0) == bytes::be16_at(bytes::be16_bytes(t.guard), 0));
    assert(bytes::be16_at(b, 2) == bytes::be16_at(bytes::be16_bytes(t.app_tag), 0));
    assert(bytes::be16_at(b, 4) == bytes::be16_at(r, 0));
    assert(bytes::be16_at(b, 6) == bytes::be16_at(r, 2));
}

/// Eight bytes survive the way to a tuple and back.
pub proof fn law_tuple_bytes_round_trip(b: Seq<u8>)
    requires
        b.len() == 8,
    ensures
        tuple_bytes(tuple_at(b)) == b,
{
    let (p, q, r) = (b.subrange(0, 2), b.subrange(2, 4), b.subrange(4, 8));
    bytes::law_be16_bytes_of_read(p);
    bytes::law_be16_bytes_of_read(q);
    bytes::law_be32_bytes_of_read(r);
    assert(bytes::be16_at(p, 0) == bytes::be16_at(b, 0));
    assert(bytes::be16_at(q, 0) == bytes::be16_at(b, 2));
    assert(bytes::be16_at(r, 0) == bytes::be16_at(b, 4));
    assert(bytes::be16_at(r, 2) == bytes::be16_at(b, 6));
    assert(tuple_bytes(tuple_at(b)) =~= p + q + r);
    assert(p + q + r =~= b);
}

/// The CRC of any number of zero bytes is 0.
pub proof fn law_crc_of_zeros(n: nat)
    ensures
        crc_of(Seq::new(n, |i: int| 0u8)) == 0,
    decreases n,
{
    if n > 0 {
        let z = Seq::new(n, |i: int| 0u8);
        assert(z.drop_last() =~= Seq::new((n - 1) as nat, |i: int| 0u8));
        law_crc_of_zeros((n - 1) as nat);
        assert(crc_byte(0, 0) == 0) by (bit_vector);
    }
}

/// A change of one byte of a block changes its CRC.
pub proof fn law_crc_detects_changed_byte(a: Seq<u8>, b: Seq<u8>, at: int)
    requires
        a.len() == b.len(),
        0 <= at < a.len(),
        a[at] != b[at],
        forall|i: int| 0 <= i < a.len() && i != at ==> a[i] == b[i],
    ensures
        crc_of(a) != crc_of(b),
    decreases a.len(),
{
    let (x, y) = (a.drop_last(), b.drop_last());
    let (p, q) = (a.last(), b.last());
    if at == a.len() - 1 {
        assert(x =~= y);
        let c = crc_of(x);
        assert(p != q ==> crc_byte(c, p) != crc_byte(c, q)) by (bit_vector);
    } else {
        law_crc_detects_changed_byte(x, y, at);
        let (c, d) = (crc_of(x), crc_of(y));
        assert(c != d ==> crc_byte(c, p) != crc_byte(d, p)) by (bit_vector);
    }
}

} // verus!
