//! CMBSTS (controller memory buffer status) bit layout.
use vstd::prelude::*;

verus! {

/// Bit 0: the controller base address is invalid.
pub const CBAI: u32 = 0x1;

} // verus!
