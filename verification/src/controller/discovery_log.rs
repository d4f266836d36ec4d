//! Entries of the discovery log page.
use vstd::prelude::*;

verus! {

/// Where a subsystem can be reached.
#[derive(Debug)]
pub struct DiscoveryPortal {
    /// Transport address.
    pub traddr: String,
    /// Transport service identifier.
    pub trsvcid: String,
    /// Qualified name of the subsystem.
    pub subnqn: String,
}

} // verus!
