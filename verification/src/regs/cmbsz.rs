//! CMBSZ (controller memory buffer size) bit layout. The buffer is SZ size units
//! long; SZU encodes the size unit.
use vstd::prelude::*;

verus! {

/// Bit 0: the buffer may hold submission queues.
pub const SQS: u32 = 0x1;

/// Bit 1: the buffer may hold completion queues.
pub const CQS: u32 = 0x2;

/// Bit 2: the buffer may hold PRP lists and SGL segments.
pub const LISTS: u32 = 0x4;

/// Bit 3: the buffer may hold read data.
pub const RDS: u32 = 0x8;

/// Bit 4: the buffer may hold write data.
pub const WDS: u32 = 0x10;

pub const SZU_SHIFT: u32 = 8;

/// Bits 11:8.
pub const SZU_MASK: u32 = 0xf00;

pub const SZ_SHIFT: u32 = 12;

/// Bits 31:12.
pub const SZ_MASK: u32 = 0xffff_f000;

/// Bytes in a size unit: 4 KiB for encoding 0, sixteen times as much for each
/// encoding above.
pub open spec fn unit_size(szu: nat) -> nat
    decreases szu,
{
    if szu == 0 {
        4096
    } else {
        16 * unit_size((szu - 1) as nat)
    }
}

/// Bytes in the size unit that `szu` encodes. The largest encoding whose unit a
/// `u64` can hold is 12.
pub fn unit_bytes(szu: u32) -> (r: u64)
    requires
        szu <= 12,
    ensures
        r == unit_size(szu as nat),
{
    let mut r: u64 = 4096;
    let mut i: u32 = 0;
    proof {
        lemma_unit_size_bound(12);
    }
    while i < szu
        invariant
            i <= szu <= 12,
            r == unit_size(i as nat),
        decreases szu - i,
    {
        proof {
            lemma_unit_size_bound((i + 1) as nat);
        }
        r = 16 * r;
        i += 1;
    }
    r
}

proof fn lemma_unit_size_bound(szu: nat)
    requires
        szu <= 12,
    ensures
        unit_size(szu) <= 0x1000_0000_0000_0000,
{
    reveal_with_fuel(unit_size, 14);
}

} // verus!
