//! Opcodes of the NVM command set that the dispatcher looks at.
use vstd::prelude::*;

verus! {

pub const WRITE: u8 = 0x01;

pub const COMPARE: u8 = 0x05;

} // verus!
