//! CMBMSC (controller memory buffer memory space control) bit layout.
use vstd::prelude::*;

verus! {

/// Bit 0: CMBLOC and CMBSZ report their real values.
pub const CRE: u64 = 0x1;

/// Bit 1: the memory space is enabled. Needs CRE.
pub const CMSE: u64 = 0x2;

pub const CBA_SHIFT: u64 = 12;

/// Bits 63:12: controller base address, page aligned.
pub const CBA_MASK: u64 = 0xffff_ffff_ffff_f000;

} // verus!
