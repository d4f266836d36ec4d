//! CAP (controller capabilities) bits.
use vstd::prelude::*;

verus! {

/// Bit 57: controller memory buffer supported.
pub const CMBS: u64 = 0x0200_0000_0000_0000;

} // verus!
