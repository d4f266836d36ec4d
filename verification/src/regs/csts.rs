//! CSTS (controller status) bit layout.
use vstd::prelude::*;

verus! {

pub const RDY: u32 = 0x1;

/// Controller fatal status.
pub const CFS: u32 = 0x2;

/// Bits 3:2.
pub const SHST_MASK: u32 = 0xc;

/// Normal operation.
pub const SHST_NORMAL: u32 = 0;

/// Shutdown processing occurring.
pub const SHST_OCCURRING: u32 = 0x4;

/// Shutdown processing complete.
pub const SHST_COMPLETE: u32 = 0x8;

} // verus!
