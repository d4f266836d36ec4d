//! Submission and completion queue entries.
use vstd::prelude::*;

use crate::bytes;

pub mod nvm_opc;
pub mod sc;

verus! {

/// A submission queue entry: 64 bytes, little-endian.
#[derive(Debug, Clone, Copy, PartialEq, Eq, Structural)]
pub struct Sqe {
    /// Opcode in bits 7:0, FUSE in bits 9:8, PSDT in bits 15:14, CID in bits 31:16.
    pub cdw0: u32,
    pub nsid: u32,
    pub cdw2: u32,
    pub cdw3: u32,
    pub mptr: u64,
    pub prp1: u64,
    pub prp2: u64,
    pub cdw10: u32,
    pub cdw11: u32,
    pub cdw12: u32,
    pub cdw13: u32,
    pub cdw14: u32,
    pub cdw15: u32,
}

/// The entry that 64 bytes starting at `at` encode.
pub open spec fn sqe_at(s: Seq<u8>, at: int) -> Sqe {
    Sqe {
        cdw0: bytes::le32_at(s, at),
        nsid: bytes::le32_at(s, at + 4),
        cdw2: bytes::le32_at(s, at + 8),
        cdw3: bytes::le32_at(s, at + 12),
        mptr: bytes::le64_at(s, at + 16),
        prp1: bytes::le64_at(s, at + 24),
        prp2: bytes::le64_at(s, at + 32),
        cdw10: bytes::le32_at(s, at + 40),
        cdw11: bytes::le32_at(s, at + 44),
        cdw12: bytes::le32_at(s, at + 48),
        cdw13: bytes::le32_at(s, at + 52),
        cdw14: bytes::le32_at(s, at + 56),
        cdw15: bytes::le32_at(s, at + 60),
    }
}

impl Sqe {
    pub open spec fn spec_opcode(self) -> u8 {
        (self.cdw0 & 0xff) as u8
    }

    pub open spec fn spec_fuse(self) -> u8 {
        ((self.cdw0 >> 8) & 3) as u8
    }

    pub open spec fn spec_cid(self) -> u16 {
        (self.cdw0 >> 16) as u16
    }

    /// First logical block of a read, write or compare.
    pub open spec fn spec_slba(self) -> u64 {
        (self.cdw10 as u64) | ((self.cdw11 as u64) << 32)
    }

    /// Number of logical blocks: the field is zero-based.
    pub open spec fn spec_nlb(self) -> int {
        (self.cdw12 & 0xffff) + 1
    }

    /// Decodes the entry that `b` holds; `None` unless `b` is exactly one entry long.
    pub fn read_from_bytes(b: &[u8]) -> (r: Option<Sqe>)
        ensures
            r is Some <==> b@.len() == 64,
            r is Some ==> r->0 == sqe_at(b@, 0),
    {
        if b.len() != 64 {
            return None;
        }
        Some(Sqe::decode_at(b, 0))
    }

    /// Decodes the entry at byte `at`.
    pub fn decode_at(b: &[u8], at: usize) -> (r: Sqe)
        requires
            at + 64 <= b@.len(),
        ensures
            r == sqe_at(b@, at as int),
    {
        assert(at + 64 <= b.len());
        Sqe {
            cdw0: bytes::read_le32(b, at),
            nsid: bytes::read_le32(b, at + 4),
            cdw2: bytes::read_le32(b, at + 8),
            cdw3: bytes::read_le32(b, at + 12),
            mptr: bytes::read_le64(b, at + 16),
            prp1: bytes::read_le64(b, at + 24),
            prp2: bytes::read_le64(b, at + 32),
            cdw10: bytes::read_le32(b, at + 40),
            cdw11: bytes::read_le32(b, at + 44),
            cdw12: bytes::read_le32(b, at + 48),
            cdw13: bytes::read_le32(b, at + 52),
            cdw14: bytes::read_le32(b, at + 56),
            cdw15: bytes::read_le32(b, at + 60),
        }
    }

    pub fn opcode(&self) -> (r: u8)
        ensures
            r == self.spec_opcode(),
    {
        (self.cdw0 & 0xff) as u8
    }

    /// 0 = not fused, 1 = first, 2 = second, 3 = reserved.
    pub fn fuse(&self) -> (r: u8)
        ensures
            r == self.spec_fuse(),
            r <= 3,
    {
        let w: u32 = self.cdw0;
        assert(((w >> 8) & 3) <= 3) by (bit_vector);
        ((self.cdw0 >> 8) & 3) as u8
    }

    pub fn cid(&self) -> (r: u16)
        ensures
            r == self.spec_cid(),
    {
        (self.cdw0 >> 16) as u16
    }

    pub fn slba(&self) -> (r: u64)
        ensures
            r == self.spec_slba(),
    {
        (self.cdw10 as u64) | ((self.cdw11 as u64) << 32)
    }

    pub fn nlb(&self) -> (r: u32)
        ensures
            r == self.spec_nlb(),
            1 <= r <= 0x1_0000,
    {
        let w: u32 = self.cdw12;
        assert((w & 0xffff) <= 0xffff) by (bit_vector);
        (self.cdw12 & 0xffff) + 1
    }
}

/// A completion queue entry: 16 bytes, little-endian.
#[derive(Debug, Clone, Copy, PartialEq, Eq, Structural)]
pub struct Cqe {
    /// Command specific result.
    pub cdw0: u32,
    pub dw1: u32,
    /// SQ head pointer in bits 15:0, SQ identifier in bits 31:16.
    pub dw2: u32,
    /// CID in bits 15:0, phase tag in bit 16, SC in bits 24:17, SCT in bits 27:25.
    pub dw3: u32,
}

/// The completion of command `cid` with `status`.
pub open spec fn cqe_of(cid: u16, sq_id: u16, sq_head: u16, phase: u8, status: u16) -> Cqe {
    Cqe {
        cdw0: 0,
        dw1: 0,
        dw2: (sq_head as u32) | ((sq_id as u32) << 16),
        dw3: (cid as u32) | (((phase & 1) as u32) << 16) | ((sc::status_field(status) as u32)
            << 16),
    }
}

impl Cqe {
    /// The 16 bytes of this entry.
    pub open spec fn spec_bytes(self) -> Seq<u8> {
        bytes::le32_bytes(self.cdw0) + bytes::le32_bytes(self.dw1) + bytes::le32_bytes(self.dw2) + bytes::le32_bytes(self.dw3)
    }

    pub fn success(cid: u16, sq_id: u16, sq_head: u16, phase: u8) -> (r: Cqe)
        ensures
            r == cqe_of(cid, sq_id, sq_head, phase, 0),
    {
        Cqe::error(cid, sq_id, sq_head, phase, 0)
    }

    pub fn error(cid: u16, sq_id: u16, sq_head: u16, phase: u8, status: u16) -> (r: Cqe)
        ensures
            r == cqe_of(cid, sq_id, sq_head, phase, status),
    {
        Cqe {
            cdw0: 0,
            dw1: 0,
            dw2: (sq_head as u32) | ((sq_id as u32) << 16),
            dw3: (cid as u32) | (((phase & 1) as u32) << 16) | ((sc::sf_of(status) as u32) << 16),
        }
    }

    pub fn as_bytes(&self) -> (v: Vec<u8>)
        ensures
            v@ == self.spec_bytes(),
            v@.len() == 16,
    {
        let mut v: Vec<u8> = Vec::new();
        bytes::push_le32(&mut v, self.cdw0);
        bytes::push_le32(&mut v, self.dw1);
        bytes::push_le32(&mut v, self.dw2);
        bytes::push_le32(&mut v, self.dw3);
        assert(v@ =~= self.spec_bytes());
        v
    }
}

/// The entry that 16 bytes encode.
pub open spec fn cqe_at(s: Seq<u8>, at: int) -> Cqe {
    Cqe {
        cdw0: bytes::le32_at(s, at),
        dw1: bytes::le32_at(s, at + 4),
        dw2: bytes::le32_at(s, at + 8),
        dw3: bytes::le32_at(s, at + 12),
    }
}

/// A host that decodes the bytes of a completion reads the completion posted.
pub proof fn law_cqe_bytes_round_trip(c: Cqe)
    ensures
        c.spec_bytes().len() == 16,
        cqe_at(c.spec_bytes(), 0) == c,
{
    let s = c.spec_bytes();
    bytes::law_le32_round_trip(c.cdw0);
    bytes::law_le32_round_trip(c.dw1);
    bytes::law_le32_round_trip(c.dw2);
    bytes::law_le32_round_trip(c.dw3);
    assert(bytes::le32_at(s, 0) == bytes::le32_at(bytes::le32_bytes(c.cdw0), 0));
    assert(bytes::le32_at(s, 4) == bytes::le32_at(bytes::le32_bytes(c.dw1), 0));
    assert(bytes::le32_at(s, 8) == bytes::le32_at(bytes::le32_bytes(c.dw2), 0));
    assert(bytes::le32_at(s, 12) == bytes::le32_at(bytes::le32_bytes(c.dw3), 0));
}

/// Every field of a completion can be read back from its words: the command
/// identifier, the queue, the head pointer, the phase tag and the status.
pub proof fn law_cqe_fields(cid: u16, sq_id: u16, sq_head: u16, phase: u8, status: u16)
    requires
        phase <= 1,
        status < 0x8000,
    ensures
        ({
            let c = cqe_of(cid, sq_id, sq_head, phase, status);
            &&& c.dw2 & 0xffff == sq_head
            &&& c.dw2 >> 16 == sq_id
            &&& c.dw3 & 0xffff == cid
            &&& (c.dw3 >> 16) & 1 == phase
            &&& c.dw3 >> 17 == status
        }),
{
    assert(((sq_head as u32) | ((sq_id as u32) << 16)) & 0xffff == sq_head && ((sq_head as u32) | ((
    sq_id as u32) << 16)) >> 16 == sq_id) by (bit_vector);
    assert(phase <= 1 && status < 0x8000 ==> ({
        let d = (cid as u32) | (((phase & 1) as u32) << 16) | (((status << 1) as u32) << 16);
        d & 0xffff == cid && (d >> 16) & 1 == phase && d >> 17 == status
    })) by (bit_vector);
}

} // verus!
