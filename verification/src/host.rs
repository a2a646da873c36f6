//! What the proxy needs to know of the host side of the virtual network.

use vstd::prelude::*;

verus! {

/// The kind of network that the host interface provides.
#[derive(Debug, Clone, Copy, PartialEq, Eq, Structural)]
pub enum NetType {
    /// Shared network
    ///
    /// Uses NAT-translation to give guests access to the global network
    Nat,
    /// Host network
    ///
    /// Guests will be able to talk only to the host without access to global network
    Host,
}

} // verus!
