//! Verified core of an NVMe controller emulator.
pub mod bytes;
pub mod cmd;
pub mod controller;
pub mod laws;
pub mod mapping;
pub mod pi;
pub mod regs;
pub mod sgl;
pub mod startup;

pub use controller::NvmeController;
pub use controller::{DEFAULT_MAX_QUEUE_ENTRIES, MAX_MAX_QUEUE_ENTRIES, MIN_MAX_QUEUE_ENTRIES};
