//! Configuration that the network core reads.

use vstd::prelude::*;

verus! {

/// What an infrastructure peer is used for.
#[derive(Debug, Clone, Copy, PartialEq, Eq, Structural)]
pub struct InfrastructureRoles {
    /// It serves the distributed hash table.
    pub kad_server: bool,
    /// It relays traffic to peers that cannot be reached directly.
    pub relay_server: bool,
}

impl InfrastructureRoles {
    /// A peer that does both.
    pub fn kad_and_relay() -> (roles: Self)
        ensures
            roles == (InfrastructureRoles { kad_server: true, relay_server: true }),
    {
        InfrastructureRoles { kad_server: true, relay_server: true }
    }
}

} // verus!
