//! Completion status values. A status carries the status code (SC) in bits 7:0
//! and the status code type (SCT) in bits 10:8.
use vstd::prelude::*;

verus! {

pub const INVALID_FIELD: u16 = 0x0002;

pub const DATA_TRANSFER_ERROR: u16 = 0x0004;

pub const COMMAND_ABORT_REQUESTED: u16 = 0x0007;

pub const INVALID_NAMESPACE: u16 = 0x000b;

pub const INVALID_SGL_SEGMENT_DESCRIPTOR: u16 = 0x000d;

pub const SGL_DESCRIPTOR_TYPE_INVALID: u16 = 0x0011;

pub const SGL_INVALID_USE_OF_CMB: u16 = 0x0012;

pub const SGL_OFFSET_INVALID: u16 = 0x0016;

pub const LBA_OUT_OF_RANGE: u16 = 0x0080;

pub const NAMESPACE_NOT_READY: u16 = 0x0082;

/// SCT 2 (media and data integrity), SC 0x85.
pub const COMPARE_FAILURE: u16 = 0x0285;

/// The status field of a completion, without the phase tag: bit 0 is the phase
/// position and stays clear, SC sits in bits 8:1 and SCT in bits 11:9.
pub open spec fn status_field(status: u16) -> u16 {
    status << 1
}

/// The status field that the error log and a completion carry for `status`.
pub fn sf_of(status: u16) -> (r: u16)
    ensures
        r == status_field(status),
{
    status << 1
}

} // verus!
