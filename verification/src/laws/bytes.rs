//! Numbers in bytes, page lists, scatter gather lists and protection information.
use vstd::prelude::*;

use crate::bytes;
use crate::laws;
use crate::laws::doorbells;
use crate::pi;
use crate::pi::{PiCheck, PiTuple, PrChk};
use crate::sgl;
use crate::sgl::{SglDescriptor, SglFragment, SglType};

verus! {

/// The number in eight bytes from `at` on, low byte first.
pub open spec fn eight_bytes(b: Seq<u8>, at: int) -> int {
    laws::four_bytes(b, at) + 0x1_0000_0000 * laws::four_bytes(b, at + 4)
}

/// Numbers are read low byte first.
pub proof fn law_numbers_are_read_low_byte_first(s: &[u8], at: usize, x: u16, y: u32, z: u64)
    requires
        call_ensures(bytes::read_le16, (s, at), x),
        call_ensures(bytes::read_le32, (s, at), y),
        call_ensures(bytes::read_le64, (s, at), z),
    ensures
        x == laws::two_bytes(s@, at as int),
        y == laws::four_bytes(s@, at as int),
        z == eight_bytes(s@, at as int),
{
    let (p, q) = (s@[at as int], s@[at + 1]);
    assert((p as u16) | ((q as u16) << 8) == p + 0x100 * q) by (bit_vector);
    doorbells::lemma_four_bytes(s@, at as int);
    doorbells::lemma_eight_bytes(s@, at as int);
}

/// Numbers are written low byte first, behind what is there.
pub proof fn law_numbers_are_written_low_byte_first(
    v: &mut Vec<u8>,
    x: u16,
    w: &mut Vec<u8>,
    y: u32,
    b: Vec<u8>,
    i: int,
)
    requires
        call_ensures(bytes::push_le16, (v, x), ()),
        call_ensures(bytes::push_le32, (w, y), ()),
        call_ensures(bytes::u32_to_le, (y,), b),
    ensures
        final(v)@.len() == old(v)@.len() + 2,
        0 <= i < old(v)@.len() ==> final(v)@[i] == old(v)@[i],
        laws::two_bytes(final(v)@, old(v)@.len() as int) == x,
        final(w)@.len() == old(w)@.len() + 4,
        0 <= i < old(w)@.len() ==> final(w)@[i] == old(w)@[i],
        laws::four_bytes(final(w)@, old(w)@.len() as int) == y,
        b@.len() == 4,
        laws::four_bytes(b@, 0) == y,
{
    laws::queues::lemma_two_bytes_of(x);
    laws::lemma_bytes_of(y);
    assert(laws::two_bytes(final(v)@, old(v)@.len() as int) == laws::two_bytes(
        bytes::le16_bytes(x),
        0,
    ));
    assert(laws::four_bytes(final(w)@, old(w)@.len() as int) == laws::four_bytes(
        bytes::le32_bytes(y),
        0,
    ));
}

/// Bytes are the same where there are as many and each one is.
pub proof fn law_same_bytes(a: &[u8], b: &[u8], r: bool, i: int)
    requires
        call_ensures(bytes::same_bytes, (a, b), r),
    ensures
        r ==> a@.len() == b@.len(),
        r && 0 <= i < a@.len() ==> a@[i] == b@[i],
        !r ==> a@ != b@,
{
}

/// The type in the high half of an identifier.
pub open spec fn type_number(t: SglType) -> int {
    match t {
        SglType::DataBlock => 0,
        SglType::BitBucket => 1,
        SglType::Segment => 2,
        SglType::LastSegment => 3,
        SglType::KeyedDataBlock => 4,
        SglType::TransportSpecific => 5,
    }
}

/// The six types are numbered from 0 in the high half of the identifier; there are no others.
pub proof fn law_type_of_a_descriptor(b: u8, r: Option<SglType>)
    requires
        call_ensures(SglType::from_byte, (b,), r),
    ensures
        r is Some <==> b < 0x60,
        r is Some ==> 16 * type_number(r->0) <= b < 16 * type_number(r->0) + 16,
{
}

/// `d` is the descriptor in 16 bytes of `b` from `at` on: address, length, and the
/// identifier in the last byte.
pub open spec fn descriptor_in(b: Seq<u8>, at: int, d: SglDescriptor) -> bool {
    &&& d.address == eight_bytes(b, at)
    &&& d.length == laws::four_bytes(b, at + 8)
    &&& b[at + 15] == 16 * type_number(d.sgl_type) + d.sub_type
    &&& d.sub_type < 16
}

proof fn lemma_descriptor_in(b: Seq<u8>, at: int)
    ensures
        sgl::descriptor_at(b, at) is Some <==> b[at + 15] < 0x60,
        sgl::descriptor_at(b, at) is Some ==> descriptor_in(b, at, sgl::descriptor_at(b, at)->0),
{
    doorbells::lemma_eight_bytes(b, at);
    doorbells::lemma_four_bytes(b, at + 8);
}

/// A descriptor is read as it is laid out, where its type is known.
pub proof fn law_descriptor_is_read(b: &[u8; 16], r: Option<SglDescriptor>)
    requires
        call_ensures(SglDescriptor::parse, (b,), r),
    ensures
        r is Some <==> b@[15] < 0x60,
        r is Some ==> descriptor_in(b@, 0, r->0),
{
    lemma_descriptor_in(b@, 0);
}

/// Addresses in host memory are always taken, offsets into the controller memory buffer only
/// while there is one, and nothing else ever.
pub proof fn law_subtype_is_taken(sub_type: u8, cmb: bool, r: Option<u16>)
    requires
        call_ensures(sgl::subtype_to_sc, (sub_type, cmb), r),
    ensures
        r is None <==> sub_type == 0 || (sub_type == 1 && cmb),
        sub_type == 1 && !cmb ==> r == Some(0x12u16),
        sub_type > 1 ==> r == Some(0x11u16),
{
}

/// An address in host memory is what it is; an offset is counted from the start of the
/// buffer, and refused at its end.
pub proof fn law_address_is_resolved(
    sub_type: u8,
    address: u64,
    cmb: Option<(u64, u64)>,
    r: Result<u64, u16>,
)
    requires
        call_ensures(sgl::resolve_sgl_address, (sub_type, address, cmb), r),
        cmb is Some ==> (cmb->0).0 + (cmb->0).1 <= u64::MAX + 1,
    ensures
        if sub_type == 1 && cmb is Some {
            let (start, len) = cmb->0;
            &&& r is Ok <==> address < len
            &&& r is Ok ==> r->Ok_0 - start == address
            &&& r is Err ==> r->Err_0 == 0x16
        } else {
            r is Ok && r->Ok_0 == address
        },
{
}

/// How descriptor number `i` of `b` fares: 0 where it is taken, and else the status of its
/// refusal; its type counts first, then its subtype, and its address last.
pub open spec fn descriptor_status(b: Seq<u8>, i: int, cmb: Option<(u64, u64)>) -> int {
    let id = b[16 * i + 15] as int;
    if id >= 0x60 {
        0x11
    } else if id % 16 == 0 {
        0
    } else if id % 16 != 1 {
        0x11
    } else if cmb is None {
        0x12
    } else if eight_bytes(b, 16 * i) >= (cmb->0).1 {
        0x16
    } else {
        0
    }
}

proof fn lemma_descriptor_status(b: Seq<u8>, i: int, cmb: Option<(u64, u64)>)
    requires
        cmb is Some ==> (cmb->0).0 + (cmb->0).1 <= u64::MAX + 1,
    ensures
        ({
            let r = sgl::resolved_descriptor(b, i * 16, cmb);
            &&& r is Ok <==> descriptor_status(b, i, cmb) == 0
            &&& r is Err ==> r->Err_0 == descriptor_status(b, i, cmb)
            &&& r is Ok ==> descriptor_taken(b, i, cmb, r->Ok_0)
        }),
{
    lemma_descriptor_in(b, i * 16);
}

/// Descriptor number `i` of `b` was taken as `d`: as it is laid out, but for an offset, which
/// is counted from the start of the buffer.
pub open spec fn descriptor_taken(b: Seq<u8>, i: int, cmb: Option<(u64, u64)>, d: SglDescriptor) -> bool {
    let offset: int = if d.sub_type == 1 {
        (cmb->0).0 as int
    } else {
        0
    };
    &&& offset <= d.address
    &&& descriptor_in(b, 16 * i, SglDescriptor { address: (d.address - offset) as u64, ..d })
}

/// A list is whole descriptors, all of which are taken, in order; the first one that is not
/// decides how the list is refused.
pub proof fn law_list_is_taken_or_refused(
    b: &[u8],
    cmb: Option<(u64, u64)>,
    r: Result<Vec<SglDescriptor>, u16>,
    i: int,
)
    requires
        call_ensures(sgl::parse_sgl_list, (b, cmb), r),
        cmb is Some ==> (cmb->0).0 + (cmb->0).1 <= u64::MAX + 1,
    ensures
        b@.len() % 16 != 0 ==> r is Err && r->Err_0 == 0xd,
        b@.len() % 16 == 0 ==> {
            &&& r is Ok ==> {
                &&& r->Ok_0@.len() * 16 == b@.len()
                &&& 0 <= i < r->Ok_0@.len() ==> descriptor_status(b@, i, cmb) == 0
                    && descriptor_taken(b@, i, cmb, r->Ok_0@[i])
            }
            &&& is_first_refused(b@, i, cmb) ==> r is Err && r->Err_0 == descriptor_status(
                b@,
                i,
                cmb,
            )
            &&& r is Err ==> exists|j: int| is_first_refused(b@, j, cmb)
        },
{
    lemma_descriptor_status(b@, i, cmb);
    if b@.len() % 16 == 0 {
        if r is Err {
            let j = choose|j: int|
                #![trigger sgl::refused_at(b@, j, cmb)]
                0 <= j < b@.len() / 16 && sgl::refused_at(b@, j, cmb) && sgl::resolved_descriptor(
                    b@,
                    j * 16,
                    cmb,
                ) == Err::<SglDescriptor, _>(r->Err_0) && forall|k: int|
                    0 <= k < j ==> !#[trigger] sgl::refused_at(b@, k, cmb);
            lemma_descriptor_status(b@, j, cmb);
            assert forall|k: int| 0 <= k < j implies #[trigger] descriptor_status(b@, k, cmb) == 0 by {
                lemma_descriptor_status(b@, k, cmb);
                assert(!sgl::refused_at(b@, k, cmb));
            }
            assert(is_first_refused(b@, j, cmb));
            if is_first_refused(b@, i, cmb) {
                if i < j {
                    assert(descriptor_status(b@, i, cmb) == 0);
                }
                if j < i {
                    assert(descriptor_status(b@, j, cmb) == 0);
                }
            }
        } else if is_first_refused(b@, i, cmb) {
            assert(sgl::resolved_descriptor(b@, i * 16, cmb) == Ok::<_, u16>(r->Ok_0@[i]));
        }
        if r is Ok && 0 <= i < r->Ok_0@.len() {
            assert(sgl::resolved_descriptor(b@, i * 16, cmb) == Ok::<_, u16>(r->Ok_0@[i]));
        }
    }
}

/// Descriptor `i` is the first one of `b` that is refused.
pub open spec fn is_first_refused(b: Seq<u8>, i: int, cmb: Option<(u64, u64)>) -> bool {
    &&& 0 <= i < b.len() / 16
    &&& descriptor_status(b, i, cmb) != 0
    &&& forall|j: int| 0 <= j < i ==> #[trigger] descriptor_status(b, j, cmb) == 0
}

/// A descriptor stands for a piece of the transfer.
pub open spec fn is_piece(d: SglDescriptor) -> bool {
    d.sub_type == 0 && (d.sgl_type is DataBlock || d.sgl_type is BitBucket)
}

/// `f` is the piece that `d` stands for.
pub open spec fn piece_of(d: SglDescriptor, f: SglFragment) -> bool {
    match d.sgl_type {
        SglType::DataBlock => f == (SglFragment::Data { address: d.address, length: d.length }),
        _ => f == (SglFragment::BitBucket { length: d.length }),
    }
}

/// A list of pieces comes out as those pieces, in order; the first descriptor that is none
/// decides what is reported: its subtype, that it leads elsewhere, or that it belongs to
/// fabrics.
pub proof fn law_pieces_in_order(
    ds: &[SglDescriptor],
    r: Result<Vec<SglFragment>, &'static str>,
    i: int,
)
    requires
        call_ensures(sgl::flatten_data_blocks, (ds,), r),
    ensures
        r is Ok <==> forall|j: int| 0 <= j < ds@.len() ==> is_piece(#[trigger] ds@[j]),
        r is Ok ==> r->Ok_0@.len() == ds@.len(),
        r is Ok && 0 <= i < ds@.len() ==> piece_of(ds@[i], r->Ok_0@[i]),
        0 <= i < ds@.len() && !is_piece(ds@[i]) && (forall|j: int|
            0 <= j < i ==> is_piece(#[trigger] ds@[j])) ==> r is Err && (r->Err_0)@ == (
        if ds@[i].sub_type != 0 {
            "SGL sub_type != 0 (only Address subtype supported)"@
        } else if ds@[i].sgl_type is Segment || ds@[i].sgl_type is LastSegment {
            "Segment/LastSegment must be expanded by caller before flatten"@
        } else {
            "Keyed/Transport SGL not supported (NVMe-oF only)"@
        }),
{
    assert forall|d: SglDescriptor| #[trigger] is_piece(d) <==> sgl::fragment_of(d) is Ok by {}
    if r is Ok {
        assert forall|j: int| 0 <= j < ds@.len() implies is_piece(#[trigger] ds@[j]) by {
            assert(sgl::fragment_of(ds@[j]) == Ok::<_, sgl::FlattenRefusal>(r->Ok_0@[j]));
        }
        if 0 <= i < ds@.len() {
            assert(sgl::fragment_of(ds@[i]) == Ok::<_, sgl::FlattenRefusal>(r->Ok_0@[i]));
        }
    } else {
        let k = choose|k: int|
            0 <= k < ds@.len() && sgl::fragment_of(#[trigger] ds@[k]) is Err && (r->Err_0)@
                == sgl::refusal_message(sgl::fragment_of(ds@[k])->Err_0) && forall|j: int|
                0 <= j < k ==> sgl::fragment_of(#[trigger] ds@[j]) is Ok;
        assert(!is_piece(ds@[k]));
        if 0 <= i < ds@.len() && !is_piece(ds@[i]) && (forall|j: int|
            0 <= j < i ==> is_piece(#[trigger] ds@[j])) {
            if k < i {
                assert(is_piece(ds@[k]));
            }
            if i < k {
                assert(sgl::fragment_of(ds@[i]) is Ok);
            }
        }
    }
}

/// The number in two bytes from `at` on, high byte first.
pub open spec fn two_bytes_high_first(b: Seq<u8>, at: int) -> int {
    0x100 * b[at] + b[at + 1]
}

/// `t` is the tuple in eight bytes: guard, application tag and reference tag, each with its
/// high byte first.
pub open spec fn tuple_in(b: Seq<u8>, t: PiTuple) -> bool {
    &&& t.guard == two_bytes_high_first(b, 0)
    &&& t.app_tag == two_bytes_high_first(b, 2)
    &&& t.ref_tag == 0x1_0000 * two_bytes_high_first(b, 4) + two_bytes_high_first(b, 6)
}

proof fn lemma_tuple_in(b: Seq<u8>)
    ensures
        tuple_in(b, pi::tuple_at(b)),
{
    let (b0, b1, b2, b3, b4, b5, b6, b7) = (b[0], b[1], b[2], b[3], b[4], b[5], b[6], b[7]);
    assert(((b0 as u16) << 8) | (b1 as u16) == 0x100 * b0 + b1 && ((b2 as u16) << 8) | (b3 as u16)
        == 0x100 * b2 + b3 && (((((b4 as u16) << 8) | (b5 as u16)) as u32) << 16) | ((((b6 as u16)
        << 8) | (b7 as u16)) as u32) == 0x1_0000 * (0x100 * b4 + b5) + (0x100 * b6 + b7))
        by (bit_vector);
}

/// A tuple is read and written with its high bytes first.
pub proof fn law_tuple_bytes(b: &[u8; 8], t: PiTuple, u: PiTuple, out: [u8; 8])
    requires
        call_ensures(PiTuple::from_bytes, (b,), t),
        call_ensures(PiTuple::to_bytes, (u,), out),
    ensures
        tuple_in(b@, t),
        tuple_in(out@, u),
        t == u ==> out@ == b@,
{
    lemma_tuple_in(b@);
    pi::law_tuple_round_trip(u);
    lemma_tuple_in(out@);
    pi::law_tuple_bytes_round_trip(b@);
}

/// The tuple of a block has the CRC of its data as its guard and no application tag; its
/// reference tag is the low half of the block address for types 1 and 2, and else 0.
pub proof fn law_tuple_of_a_block(
    data: &[u8],
    lba: u64,
    pi_type: u8,
    t: PiTuple,
    crc: u16,
)
    requires
        call_ensures(PiTuple::compute, (data, lba, pi_type), t),
        call_ensures(pi::crc16_t10dif, (data,), crc),
    ensures
        t.guard == crc,
        t.app_tag == 0,
        pi_type == 1 || pi_type == 2 ==> t.ref_tag == lba as int % 0x1_0000_0000,
        pi_type != 1 && pi_type != 2 ==> t.ref_tag == 0,
{
}

/// A check fails at the guard where that is checked and is not the CRC of the data; else at
/// the reference tag where that is checked, the type has one, and it is not that of the
/// block; and else it passes, whatever the application tag.
pub proof fn law_check_of_a_tuple(
    t: PiTuple,
    data: &[u8],
    lba: u64,
    pi_type: u8,
    chk: PrChk,
    r: PiCheck,
    crc: u16,
)
    requires
        call_ensures(PiTuple::verify, (t, data, lba, pi_type, chk), r),
        call_ensures(pi::crc16_t10dif, (data,), crc),
    ensures
        ({
            let bad_guard = chk.guard && t.guard != crc;
            let bad_ref = chk.ref_tag && (pi_type == 1 || pi_type == 2) && t.ref_tag != lba as int
                % 0x1_0000_0000;
            &&& bad_guard <==> r is GuardFail
            &&& !bad_guard && bad_ref <==> r is RefTagFail
            &&& !bad_guard && !bad_ref <==> r is Pass
        }),
{
}

/// The checks are asked for in three bits of the command, and all of them at once otherwise;
/// a check that failed has a status of its own.
pub proof fn law_checks_and_their_statuses(
    cdw12: u32,
    some: PrChk,
    all: PrChk,
    check: PiCheck,
    status: Option<u8>,
)
    requires
        call_ensures(PrChk::from_cdw12, (cdw12,), some),
        call_ensures(PrChk::all, (), all),
        call_ensures(PiCheck::to_sc, (check,), status),
    ensures
        some.guard <==> cdw12 as int / 0x1000_0000 % 2 == 1,
        some.app_tag <==> cdw12 as int / 0x800_0000 % 2 == 1,
        some.ref_tag <==> cdw12 as int / 0x400_0000 % 2 == 1,
        all.guard && all.app_tag && all.ref_tag,
        status is None <==> check is Pass,
        check is GuardFail ==> status == Some(0x82u8),
        check is AppTagFail ==> status == Some(0x83u8),
        check is RefTagFail ==> status == Some(0x84u8),
{
    assert((cdw12 >> 28) & 1 == cdw12 / 0x1000_0000 % 2 && (cdw12 >> 27) & 1 == cdw12 / 0x800_0000
        % 2 && (cdw12 >> 26) & 1 == cdw12 / 0x400_0000 % 2) by (bit_vector);
}

/// Data with its CRC behind it, high byte first, has CRC 0; a single 1 has the divisor as its
/// CRC; and the CRC of a sum without carries is the sum of the CRCs.
pub proof fn law_crc_is_a_remainder(
    a: &[u8],
    b: &[u8],
    sum: &[u8],
    whole: &[u8],
    one: &[u8],
    x: u16,
    y: u16,
    z: u16,
    w: u16,
    d: u16,
)
    requires
        call_ensures(pi::crc16_t10dif, (a,), x),
        call_ensures(pi::crc16_t10dif, (b,), y),
        call_ensures(pi::crc16_t10dif, (sum,), z),
        call_ensures(pi::crc16_t10dif, (whole,), w),
        call_ensures(pi::crc16_t10dif, (one,), d),
        a@.len() == b@.len() == sum@.len(),
        forall|i: int| 0 <= i < a@.len() ==> #[trigger] sum@[i] == a@[i] ^ b@[i],
        whole@ == a@ + bytes::be16_bytes(x),
        one@ == seq![1u8],
    ensures
        w == 0,
        z == x ^ y,
        d == 0x8bb7,
{
    lemma_crc_sum(a@, b@, sum@);
    let hi = (x >> 8) as u8;
    let lo = (x & 0xff) as u8;
    let m = a@.push(hi);
    assert(whole@ =~= m.push(lo));
    assert(whole@.drop_last() =~= m);
    assert(m.drop_last() =~= a@);
    assert(m.last() == hi && whole@.last() == lo);
    assert(pi::crc_of(m) == pi::crc_byte(x, hi));
    assert(pi::crc_of(whole@) == pi::crc_byte(pi::crc_of(m), lo));
    lemma_crc_of_the_rest(x);
    assert(one@.drop_last() =~= Seq::<u8>::empty());
    assert(pi::crc_of(Seq::<u8>::empty()) == 0);
}

/// The remainder itself leaves nothing, and the first number that the divisor takes in leaves
/// the divisor.
proof fn lemma_crc_of_the_rest(x: u16)
    ensures
        pi::crc_byte(pi::crc_byte(x, (x >> 8) as u8), (x & 0xff) as u8) == 0,
        pi::crc_byte(0, 1) == 0x8bb7,
{
    let lo = (x & 0xff) as u8;
    assert(x ^ ((((x >> 8) as u8) as u16) << 8) == ((x & 0xff) as u8) as u16) by (bit_vector);
    assert(pi::crc_eight_bits(lo as u16) == (lo as u16) << 8 && ((lo as u16) << 8) ^ ((lo as u16)
        << 8) == 0 && pi::crc_eight_bits(0) == 0 && pi::crc_byte(0, 1) == 0x8bb7) by (bit_vector);
}

proof fn lemma_crc_bit_sum(p: u16, q: u16)
    ensures
        pi::crc_bit(p ^ q) == pi::crc_bit(p) ^ pi::crc_bit(q),
{
    assert(pi::crc_bit(p ^ q) == pi::crc_bit(p) ^ pi::crc_bit(q)) by (bit_vector);
}

proof fn lemma_crc_bits_sum(p: u16, q: u16)
    ensures
        pi::crc_eight_bits(p ^ q) == pi::crc_eight_bits(p) ^ pi::crc_eight_bits(q),
{
    let (p1, q1) = (pi::crc_bit(p), pi::crc_bit(q));
    let (p2, q2) = (pi::crc_bit(p1), pi::crc_bit(q1));
    let (p3, q3) = (pi::crc_bit(p2), pi::crc_bit(q2));
    let (p4, q4) = (pi::crc_bit(p3), pi::crc_bit(q3));
    let (p5, q5) = (pi::crc_bit(p4), pi::crc_bit(q4));
    let (p6, q6) = (pi::crc_bit(p5), pi::crc_bit(q5));
    let (p7, q7) = (pi::crc_bit(p6), pi::crc_bit(q6));
    lemma_crc_bit_sum(p, q);
    lemma_crc_bit_sum(p1, q1);
    lemma_crc_bit_sum(p2, q2);
    lemma_crc_bit_sum(p3, q3);
    lemma_crc_bit_sum(p4, q4);
    lemma_crc_bit_sum(p5, q5);
    lemma_crc_bit_sum(p6, q6);
    lemma_crc_bit_sum(p7, q7);
}

proof fn lemma_crc_sum(a: Seq<u8>, b: Seq<u8>, s: Seq<u8>)
    requires
        a.len() == b.len() == s.len(),
        forall|i: int| 0 <= i < a.len() ==> #[trigger] s[i] == a[i] ^ b[i],
    ensures
        pi::crc_of(s) == pi::crc_of(a) ^ pi::crc_of(b),
    decreases a.len(),
{
    if a.len() == 0 {
        assert(0u16 ^ 0u16 == 0u16) by (bit_vector);
    } else {
        lemma_crc_sum(a.drop_last(), b.drop_last(), s.drop_last());
        let (p, q) = (pi::crc_of(a.drop_last()), pi::crc_of(b.drop_last()));
        let (x, y) = (a.last(), b.last());
        assert(s[s.len() - 1] == x ^ y);
        assert((p ^ q) ^ (((x ^ y) as u16) << 8) == (p ^ ((x as u16) << 8)) ^ (q ^ ((y as u16) << 8)))
            by (bit_vector);
        lemma_crc_bits_sum(p ^ ((x as u16) << 8), q ^ ((y as u16) << 8));
    }
}

} // verus!
