//! Scatter gather lists.
//!
//! A descriptor takes 16 bytes: an address, a length, three reserved bytes, and an
//! identifier with the type in its high half and the subtype in its low half. Subtype 0
//! is an address in host memory; subtype 1 is an offset into the controller memory
//! buffer, which counts only while that buffer is enabled.
use vstd::prelude::*;

use crate::bytes;
use crate::cmd::sc;

verus! {

/// Type of a descriptor.
#[derive(Debug, Clone, Copy, PartialEq, Eq, Structural)]
pub enum SglType {
    DataBlock,
    /// Discards what is written to it, and gives zeroes.
    BitBucket,
    /// More descriptors follow elsewhere.
    Segment,
    /// The last descriptors follow elsewhere.
    LastSegment,
    KeyedDataBlock,
    TransportSpecific,
}

/// The type that `n` encodes.
pub open spec fn type_of(n: int) -> Option<SglType> {
    if n == 0 {
        Some(SglType::DataBlock)
    } else if n == 1 {
        Some(SglType::BitBucket)
    } else if n == 2 {
        Some(SglType::Segment)
    } else if n == 3 {
        Some(SglType::LastSegment)
    } else if n == 4 {
        Some(SglType::KeyedDataBlock)
    } else if n == 5 {
        Some(SglType::TransportSpecific)
    } else {
        None
    }
}

impl SglType {
    /// The type in the high half of an identifier; `None` where it encodes none.
    pub fn from_byte(b: u8) -> (r: Option<SglType>)
        ensures
            r == type_of(b as int / 16),
    {
        assert(b >> 4 == b / 16) by (bit_vector);
        match b >> 4 {
            0x0 => Some(SglType::DataBlock),
            0x1 => Some(SglType::BitBucket),
            0x2 => Some(SglType::Segment),
            0x3 => Some(SglType::LastSegment),
            0x4 => Some(SglType::KeyedDataBlock),
            0x5 => Some(SglType::TransportSpecific),
            _ => None,
        }
    }
}

/// A descriptor.
#[derive(Debug, Clone, Copy, PartialEq, Eq, Structural)]
pub struct SglDescriptor {
    pub address: u64,
    pub length: u32,
    pub sgl_type: SglType,
    pub sub_type: u8,
}

/// The descriptor in the 16 bytes from `at` on; `None` where its type is unknown.
pub open spec fn descriptor_at(s: Seq<u8>, at: int) -> Option<SglDescriptor> {
    match type_of(s[at + 15] as int / 16) {
        None => None,
        Some(sgl_type) => Some(
            SglDescriptor {
                address: bytes::le64_at(s, at),
                length: bytes::le32_at(s, at + 8),
                sgl_type,
                sub_type: s[at + 15] % 16,
            },
        ),
    }
}

impl SglDescriptor {
    /// Decodes a descriptor; `None` where its type is unknown.
    pub fn parse(buf: &[u8; 16]) -> (r: Option<SglDescriptor>)
        ensures
            r == descriptor_at(buf@, 0),
    {
        SglDescriptor::parse_at(buf.as_slice(), 0)
    }

    fn parse_at(buf: &[u8], at: usize) -> (r: Option<SglDescriptor>)
        requires
            at + 16 <= buf@.len(),
        ensures
            r == descriptor_at(buf@, at as int),
    {
        assert(at + 16 <= buf.len());
        let id: u8 = buf[at + 15];
        assert(id & 0x0f == id % 16) by (bit_vector);
        match SglType::from_byte(id) {
            None => None,
            Some(sgl_type) => Some(
                SglDescriptor {
                    address: bytes::read_le64(buf, at),
                    length: bytes::read_le32(buf, at + 8),
                    sgl_type,
                    sub_type: id & 0x0f,
                },
            ),
        }
    }
}

/// Why a descriptor of this subtype is refused; `None` where it is not.
pub open spec fn subtype_refusal(sub_type: u8, cmb_enabled: bool) -> Option<u16> {
    if sub_type == 0 || (sub_type == 1 && cmb_enabled) {
        None
    } else if sub_type == 1 {
        Some(sc::SGL_INVALID_USE_OF_CMB)
    } else {
        Some(sc::SGL_DESCRIPTOR_TYPE_INVALID)
    }
}

/// See `subtype_refusal`.
pub fn subtype_to_sc(sub_type: u8, cmb_enabled: bool) -> (r: Option<u16>)
    ensures
        r == subtype_refusal(sub_type, cmb_enabled),
{
    if sub_type == 0 {
        None
    } else if sub_type == 1 {
        if cmb_enabled {
            None
        } else {
            Some(sc::SGL_INVALID_USE_OF_CMB)
        }
    } else {
        Some(sc::SGL_DESCRIPTOR_TYPE_INVALID)
    }
}

/// The guest physical address that the address of a descriptor stands for, where the
/// controller memory buffer, if it is enabled, starts at the first half of `cmb` and is
/// as long as the second. An offset has to lie in the buffer.
pub open spec fn resolved_address(sub_type: u8, address: u64, cmb: Option<(u64, u64)>) -> Result<
    u64,
    u16,
> {
    if sub_type == 1 && cmb is Some {
        if address >= (cmb->0).1 {
            Err(sc::SGL_OFFSET_INVALID)
        } else {
            Ok(((cmb->0).0 + address) as u64)
        }
    } else {
        Ok(address)
    }
}

/// See `resolved_address`.
pub fn resolve_sgl_address(sub_type: u8, address: u64, cmb: Option<(u64, u64)>) -> (r: Result<
    u64,
    u16,
>)
    requires
        sub_type == 1 && cmb is Some && address < (cmb->0).1 ==> (cmb->0).0 + address <= u64::MAX,
    ensures
        r == resolved_address(sub_type, address, cmb),
{
    if sub_type == 1 {
        if let Some((cba, size)) = cmb {
            if address >= size {
                return Err(sc::SGL_OFFSET_INVALID);
            }
            return Ok(cba + address);
        }
    }
    Ok(address)
}

/// The descriptor from byte `at` on with its address resolved, or why it is refused: its
/// type comes first, then its subtype, then its address.
pub open spec fn resolved_descriptor(s: Seq<u8>, at: int, cmb: Option<(u64, u64)>) -> Result<
    SglDescriptor,
    u16,
> {
    match descriptor_at(s, at) {
        None => Err(sc::SGL_DESCRIPTOR_TYPE_INVALID),
        Some(d) => match subtype_refusal(d.sub_type, cmb is Some) {
            Some(status) => Err(status),
            None => match resolved_address(d.sub_type, d.address, cmb) {
                Err(status) => Err(status),
                Ok(address) => Ok(SglDescriptor { address, ..d }),
            },
        },
    }
}

/// Decodes the descriptors in `buf` and resolves their addresses. The first descriptor
/// that is refused decides; `buf` has to hold whole descriptors.
pub fn parse_sgl_list(buf: &[u8], cmb: Option<(u64, u64)>) -> (r: Result<Vec<SglDescriptor>, u16>)
    requires
        cmb is Some ==> (cmb->0).0 + (cmb->0).1 <= u64::MAX + 1,
    ensures
        buf@.len() % 16 != 0 ==> r == Err::<Vec<SglDescriptor>, _>(
            sc::INVALID_SGL_SEGMENT_DESCRIPTOR,
        ),
        buf@.len() % 16 == 0 ==> match r {
            Ok(v) => v@.len() == buf@.len() / 16 && forall|i: int|
                0 <= i < v@.len() ==> resolved_descriptor(buf@, i * 16, cmb) == Ok::<_, u16>(
                    #[trigger] v@[i],
                ),
            Err(status) => exists|i: int|
                #![trigger refused_at(buf@, i, cmb)]
                0 <= i < buf@.len() / 16 && refused_at(buf@, i, cmb) && resolved_descriptor(
                    buf@,
                    i * 16,
                    cmb,
                ) == Err::<SglDescriptor, _>(status) && forall|j: int|
                    0 <= j < i ==> !#[trigger] refused_at(buf@, j, cmb),
        },
{
    if buf.len() % 16 != 0 {
        return Err(sc::INVALID_SGL_SEGMENT_DESCRIPTOR);
    }
    let n: usize = buf.len() / 16;
    let mut out: Vec<SglDescriptor> = Vec::new();
    let mut i: usize = 0;
    while i < n
        invariant
            i <= n,
            n == buf@.len() / 16,
            buf@.len() % 16 == 0,
            cmb is Some ==> (cmb->0).0 + (cmb->0).1 <= u64::MAX + 1,
            out@.len() == i,
            forall|j: int|
                0 <= j < i ==> resolved_descriptor(buf@, j * 16, cmb) == Ok::<_, u16>(
                    #[trigger] out@[j],
                ),
            forall|j: int| 0 <= j < i ==> !#[trigger] refused_at(buf@, j, cmb),
        decreases n - i,
    {
        assert(i * 16 + 16 <= buf.len());
        let ghost refused = refused_at(buf@, i as int, cmb);
        let mut desc: SglDescriptor = match SglDescriptor::parse_at(buf, i * 16) {
            Some(d) => d,
            None => {
                assert(refused);
                return Err(sc::SGL_DESCRIPTOR_TYPE_INVALID);
            },
        };
        if let Some(status) = subtype_to_sc(desc.sub_type, cmb.is_some()) {
            assert(refused);
            return Err(status);
        }
        match resolve_sgl_address(desc.sub_type, desc.address, cmb) {
            Ok(address) => {
                desc.address = address;
            },
            Err(status) => {
                assert(refused);
                return Err(status);
            },
        }
        out.push(desc);
        i += 1;
    }
    Ok(out)
}

/// Descriptor number `i` of `buf` is refused.
pub open spec fn refused_at(buf: Seq<u8>, i: int, cmb: Option<(u64, u64)>) -> bool {
    resolved_descriptor(buf, i * 16, cmb) is Err
}

/// A piece of a transfer.
#[derive(Debug, Clone, Copy, PartialEq, Eq, Structural)]
pub enum SglFragment {
    Data { address: u64, length: u32 },
    /// These bytes go nowhere, or come as zeroes.
    BitBucket { length: u32 },
}

/// Why a list of descriptors was not flattened.
#[derive(Debug, Clone, Copy, PartialEq, Eq, Structural)]
pub enum FlattenRefusal {
    SubType,
    Segment,
    Fabrics,
}

/// The piece that a descriptor stands for, or why it stands for none.
pub open spec fn fragment_of(d: SglDescriptor) -> Result<SglFragment, FlattenRefusal> {
    if d.sub_type != 0 {
        Err(FlattenRefusal::SubType)
    } else {
        match d.sgl_type {
            SglType::DataBlock => Ok(SglFragment::Data { address: d.address, length: d.length }),
            SglType::BitBucket => Ok(SglFragment::BitBucket { length: d.length }),
            SglType::Segment | SglType::LastSegment => Err(FlattenRefusal::Segment),
            SglType::KeyedDataBlock | SglType::TransportSpecific => Err(FlattenRefusal::Fabrics),
        }
    }
}

/// What a refusal is reported as.
pub open spec fn refusal_message(e: FlattenRefusal) -> Seq<char> {
    match e {
        FlattenRefusal::SubType => "SGL sub_type != 0 (only Address subtype supported)"@,
        FlattenRefusal::Segment =>
            "Segment/LastSegment must be expanded by caller before flatten"@,
        FlattenRefusal::Fabrics => "Keyed/Transport SGL not supported (NVMe-oF only)"@,
    }
}

/// The pieces of a transfer, in order. Segments have to be replaced by what they lead to
/// beforehand. The first descriptor that stands for no piece decides.
pub fn flatten_data_blocks(descriptors: &[SglDescriptor]) -> (r: Result<
    Vec<SglFragment>,
    &'static str,
>)
    ensures
        match r {
            Ok(v) => v@.len() == descriptors@.len() && forall|i: int|
                0 <= i < v@.len() ==> fragment_of(descriptors@[i]) == Ok::<_, FlattenRefusal>(
                    #[trigger] v@[i],
                ),
            Err(m) => exists|i: int|
                0 <= i < descriptors@.len() && fragment_of(#[trigger] descriptors@[i]) is Err && m@
                    == refusal_message(fragment_of(descriptors@[i])->Err_0) && forall|j: int|
                    0 <= j < i ==> fragment_of(#[trigger] descriptors@[j]) is Ok,
        },
{
    let mut out: Vec<SglFragment> = Vec::new();
    let mut i: usize = 0;
    while i < descriptors.len()
        invariant
            i <= descriptors@.len(),
            out@.len() == i,
            forall|j: int|
                0 <= j < i ==> fragment_of(#[trigger] descriptors@[j]) is Ok,
            forall|j: int|
                0 <= j < i ==> fragment_of(descriptors@[j]) == Ok::<_, FlattenRefusal>(
                    #[trigger] out@[j],
                ),
        decreases descriptors@.len() - i,
    {
        let d: SglDescriptor = descriptors[i];
        if d.sub_type != 0 {
            return Err("SGL sub_type != 0 (only Address subtype supported)");
        }
        match d.sgl_type {
            SglType::DataBlock => {
                out.push(SglFragment::Data { address: d.address, length: d.length });
            },
            SglType::BitBucket => {
                out.push(SglFragment::BitBucket { length: d.length });
            },
            SglType::Segment | SglType::LastSegment => {
                return Err("Segment/LastSegment must be expanded by caller before flatten");
            },
            SglType::KeyedDataBlock | SglType::TransportSpecific => {
                return Err("Keyed/Transport SGL not supported (NVMe-oF only)");
            },
        }
        i += 1;
    }
    Ok(out)
}

/// An address that comes out of an offset lies in the controller memory buffer, and one
/// in host memory comes out as it went in.
pub proof fn law_resolved_address_in_window(sub_type: u8, address: u64, cmb: Option<(u64, u64)>)
    requires
        cmb is Some ==> (cmb->0).0 + (cmb->0).1 <= u64::MAX + 1,
        resolved_address(sub_type, address, cmb) is Ok,
    ensures
        sub_type == 1 && cmb is Some ==> (cmb->0).0 <= resolved_address(sub_type, address, cmb)->Ok_0
            < (cmb->0).0 + (cmb->0).1,
        sub_type == 0 ==> resolved_address(sub_type, address, cmb) == Ok::<u64, u16>(address),
{
}

} // verus!
