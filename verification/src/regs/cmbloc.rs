//! CMBLOC (controller memory buffer location) bit layout.
use vstd::prelude::*;

verus! {

pub const BIR_SHIFT: u32 = 0;

/// Bits 2:0: the BAR that holds the buffer.
pub const BIR_MASK: u32 = 0x7;

pub const OFST_SHIFT: u32 = 12;

/// Bits 31:12: offset within that BAR, in size units.
pub const OFST_MASK: u32 = 0xffff_f000;

} // verus!
