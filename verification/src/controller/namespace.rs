//! Namespaces: format, backing store, reservations and zones.
use vstd::prelude::*;

use crate::mapping;

verus! {

/// State of a zone.
#[derive(Debug, Clone, Copy, PartialEq, Eq, Structural)]
pub enum ZoneState {
    Empty,
    ImplicitOpen,
    ExplicitOpen,
    Closed,
    Full,
    ReadOnly,
    Offline,
}

#[derive(Debug, Clone, Copy, PartialEq, Eq, Structural)]
pub struct Zone {
    /// Blocks written since the start of the zone.
    pub write_pointer: u64,
    pub state: ZoneState,
}

/// The zones of a zoned namespace.
#[derive(Debug)]
pub struct ZnsState {
    /// Blocks from the start of a zone to the start of the next.
    pub zone_size: u64,
    /// Writable blocks in a zone.
    pub zone_capacity: u64,
    /// Open zones allowed at a time; 0 = no limit.
    pub max_open: u32,
    /// Active zones allowed at a time; 0 = no limit.
    pub max_active: u32,
    pub zones: Vec<Zone>,
}

/// Who has to make a namespace durable.
#[derive(Debug, Clone, Copy, PartialEq, Eq, Structural)]
pub enum FlushStep {
    /// The flush fails without touching the backing store.
    Fail,
    /// The mapping has to be synchronised.
    SyncMapping,
    /// There is no mapping: the backing file has to be synchronised.
    SyncFile,
}

/// A namespace.
pub struct Namespace {
    /// The mapped backing file; `None` where it could not be mapped, and every
    /// access goes through the file.
    pub mmap: Option<memmap2::MmapMut>,
    /// Number of logical blocks.
    pub total_lba: u64,
    /// Path of the backing file.
    pub path: String,
    /// Logarithm of the data bytes in a block.
    pub lbads: u8,
    /// Metadata bytes in a block.
    pub meta_size: u8,
    /// Protection information type; 0 = none.
    pub pi_type: u8,
    /// Protection information is in the first bytes of the metadata.
    pub pi_first: bool,
    /// Reservation key and the two halves of the host identifier of each registrant.
    pub registrants: Vec<(u64, u64, u64)>,
    /// Key of the reservation holder and reservation type.
    pub reservation: Option<(u64, u8)>,
    pub reservation_gen: u32,
    /// Reservations persist through power loss.
    pub ptpl: bool,
    /// Write protection state.
    pub nswp: u8,
    /// Attached to this controller.
    pub attached: bool,
    pub zns: Option<ZnsState>,
    /// Metadata is interleaved with the data.
    pub meta_inline: bool,
    /// Every flush fails.
    pub force_flush_err: bool,
    /// The namespace waits for a format before it serves I/O.
    pub not_ready: bool,
}

impl Namespace {
    /// The mapped bytes.
    pub open spec fn media(&self) -> Option<Seq<u8>> {
        match self.mmap {
            Some(m) => Some(mapping::mapping_bytes(m)),
            None => None,
        }
    }

    /// The mapping covers the `len` bytes from `offset` on.
    pub open spec fn mapped(&self, offset: int, len: int) -> bool {
        self.media() is Some && offset + len <= self.media()->0.len()
    }

    /// The mapped bytes from `offset` on, `len` of them.
    pub open spec fn media_at(&self, offset: int, len: int) -> Seq<u8> {
        self.media()->0.subrange(offset, offset + len)
    }

    /// Blocks are 512 or 4096 data bytes, with neither metadata nor protection
    /// information.
    pub open spec fn plain(&self) -> bool {
        self.meta_size == 0 && self.pi_type == 0 && (self.lbads == 9 || self.lbads == 12)
    }

    /// Data bytes in a block.
    pub fn data_bytes(&self) -> (r: u64)
        requires
            self.lbads < 64,
        ensures
            r == vstd::arithmetic::power2::pow2(self.lbads as nat),
    {
        proof {
            lemma_block_size(self.lbads);
        }
        1u64 << self.lbads
    }

    /// Bytes in a block as it is stored: data, then metadata.
    pub fn block_bytes(&self) -> (r: u64)
        requires
            self.lbads < 64,
        ensures
            r == vstd::arithmetic::power2::pow2(self.lbads as nat) + self.meta_size,
    {
        proof {
            lemma_block_size(self.lbads);
        }
        (1u64 << self.lbads) + self.meta_size as u64
    }

    /// Metadata bytes in a block.
    pub fn meta_bytes(&self) -> (r: u64)
        ensures
            r == self.meta_size,
    {
        self.meta_size as u64
    }

    pub fn pi_enabled(&self) -> (r: bool)
        ensures
            r == (self.pi_type != 0),
    {
        self.pi_type != 0
    }

    pub fn is_plain(&self) -> (r: bool)
        ensures
            r == self.plain(),
    {
        self.meta_size == 0 && !self.pi_enabled() && (self.lbads == 9 || self.lbads == 12)
    }

    /// Whether the mapping covers `len` bytes from `offset` on.
    pub fn covers(&self, offset: u64, len: usize) -> (r: bool)
        ensures
            r == self.mapped(offset as int, len as int),
    {
        match &self.mmap {
            Some(m) => {
                let n: usize = mapping::mapping_slice(m).len();
                offset <= n as u64 && len <= n - offset as usize
            },
            None => false,
        }
    }

    /// Fills `buf` from the mapping. Where the mapping does not cover the range,
    /// nothing happens and the result is `false`: the bytes are to be had from the
    /// backing file.
    pub fn read_at(&self, buf: &mut [u8], offset: u64) -> (r: bool)
        ensures
            r == self.mapped(offset as int, old(buf)@.len() as int),
            final(buf)@ == (if r {
                self.media_at(offset as int, old(buf)@.len() as int)
            } else {
                old(buf)@
            }),
    {
        match &self.mmap {
            Some(m) => {
                let src = mapping::mapping_slice(m);
                let n: usize = src.len();
                if offset > n as u64 || buf.len() > n - offset as usize {
                    return false;
                }
                let from: usize = offset as usize;
                let part = vstd::slice::slice_subrange(src, from, from + buf.len());
                let ghost before = buf@;
                mapping::copy_into(buf, 0, part);
                assert(mapping::overwritten(before, 0, part@) =~= part@);
                true
            },
            None => false,
        }
    }

    /// Writes `buf` into the mapping. Where the mapping does not cover the range,
    /// nothing happens and the result is `false`: the bytes are to be written to the
    /// backing file.
    pub fn write_at(&mut self, buf: &[u8], offset: u64) -> (r: bool)
        ensures
            r == old(self).mapped(offset as int, buf@.len() as int),
            *final(self) == (Namespace { mmap: final(self).mmap, ..*old(self) }),
            r ==> final(self).media() == Some(
                mapping::overwritten(old(self).media()->0, offset as int, buf@),
            ),
            !r ==> *final(self) == *old(self),
    {
        if let Some(m) = self.mmap.as_mut() {
            let n: usize = mapping::mapping_slice(m).len();
            if offset <= n as u64 && buf.len() <= n - offset as usize {
                mapping::copy_into(mapping::mapping_slice_mut(m), offset as usize, buf);
                return true;
            }
        }
        false
    }

    /// What a flush of this namespace has to do first.
    pub open spec fn flush_step(&self) -> FlushStep {
        if self.force_flush_err {
            FlushStep::Fail
        } else if self.mmap is Some {
            FlushStep::SyncMapping
        } else {
            FlushStep::SyncFile
        }
    }

    /// What a flush of this namespace has to do; see `flush_after_mapping` for what
    /// follows once the mapping was synchronised.
    pub fn flush(&self) -> (r: FlushStep)
        ensures
            r == self.flush_step(),
    {
        if self.force_flush_err {
            return FlushStep::Fail;
        }
        if self.mmap.is_some() {
            return FlushStep::SyncMapping;
        }
        FlushStep::SyncFile
    }
}

/// What is left of a flush whose mapping was synchronised: nothing, or, where that
/// failed, the backing file.
pub open spec fn step_after_mapping(ok: bool) -> Option<FlushStep> {
    if ok {
        None
    } else {
        Some(FlushStep::SyncFile)
    }
}

/// What is left of a flush; `ok` tells whether synchronising the mapping succeeded.
pub fn flush_after_mapping(ok: bool) -> (r: Option<FlushStep>)
    ensures
        r == step_after_mapping(ok),
{
    if ok {
        None
    } else {
        Some(FlushStep::SyncFile)
    }
}

/// Whether a flush that starts with `step` succeeds, where synchronising the mapping and
/// the file succeed as told.
pub open spec fn flush_succeeds(step: FlushStep, mapping_ok: bool, file_ok: bool) -> bool {
    match step {
        FlushStep::Fail => false,
        FlushStep::SyncFile => file_ok,
        FlushStep::SyncMapping => match step_after_mapping(mapping_ok) {
            None => true,
            Some(next) => next == FlushStep::SyncFile && file_ok,
        },
    }
}

/// A flush falls back to the file: it fails only where the file could not be synchronised
/// either, or where every flush fails.
pub proof fn law_flush_falls_back_to_the_file(ns: Namespace, mapping_ok: bool, file_ok: bool)
    ensures
        flush_succeeds(ns.flush_step(), mapping_ok, file_ok) <==> !ns.force_flush_err && (file_ok
            || (ns.mmap is Some && mapping_ok)),
{
}

/// One shifted left by `n` is two to the power of `n`.
pub proof fn lemma_block_size(n: u8)
    requires
        n < 64,
    ensures
        1u64 << n == vstd::arithmetic::power2::pow2(n as nat),
        vstd::arithmetic::power2::pow2(n as nat) <= 0x8000_0000_0000_0000,
{
    vstd::arithmetic::power2::lemma2_to64_rest();
    if n < 63 {
        vstd::arithmetic::power2::lemma_pow2_strictly_increases(n as nat, 63);
    }
    vstd::bits::lemma_u64_shl_is_mul(1, n as u64);
    assert(1u64 << n == 1u64 << (n as u64));
}

/// A read of the range just written gives the bytes written, whatever the mapping
/// held before.
pub proof fn law_read_after_write(before: Namespace, after: Namespace, offset: u64, data: Seq<u8>)
    requires
        before.mapped(offset as int, data.len() as int),
        after.media() == Some(mapping::overwritten(before.media()->0, offset as int, data)),
    ensures
        after.mapped(offset as int, data.len() as int),
        after.media_at(offset as int, data.len() as int) == data,
{
    mapping::law_overwritten(before.media()->0, offset as int, data);
}

} // verus!
