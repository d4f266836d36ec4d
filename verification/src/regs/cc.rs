//! CC (controller configuration) bit layout.
use vstd::prelude::*;

verus! {

pub const EN: u32 = 0x1;

/// Bits 6:4, 000 = NVM command set.
pub const CSS_NVM: u32 = 0;

pub const MPS_SHIFT: u32 = 7;

/// Bits 10:7.
pub const MPS_MASK: u32 = 0x780;

/// Bits 13:11, 000 = round robin.
pub const AMS_RR: u32 = 0;

pub const SHN_SHIFT: u32 = 14;

/// Bits 15:14.
pub const SHN_MASK: u32 = 0xc000;

/// SHN field value: not shutting down.
pub const SHN_NORMAL: u32 = 0;

/// SHN field value: normal shutdown.
pub const SHN_NORMAL_SHUTDOWN: u32 = 1;

/// SHN field value: abrupt shutdown.
pub const SHN_ABRUPT_SHUTDOWN: u32 = 2;

pub const IOSQES_SHIFT: u32 = 16;

pub const IOCQES_SHIFT: u32 = 20;

} // verus!
