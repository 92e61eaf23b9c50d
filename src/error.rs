//! Errors raised by the key expression and transport manager logic.
use crate::transport::{WhatAmI, ZenohId};
use vstd::prelude::*;

verus! {

#[derive(PartialEq, Eq, Structural, Clone, Copy, Debug)]
pub enum ZError {
    /// No link manager is registered for the protocol.
    UnknownProtocol,
    /// A unicast transport was asked for on a multicast locator.
    MulticastEndpointForUnicast,
    /// A transport with the peer exists with another role.
    InvalidWhatami { got: WhatAmI, expected: WhatAmI },
    /// A transport with the peer exists with another sequence number resolution.
    InvalidSnResolution { got: u64, expected: u64 },
    /// A transport with the peer exists with another shared memory setting.
    InvalidShm { got: bool, expected: bool },
    /// A transport with the peer exists with another QoS setting.
    InvalidQos { got: bool, expected: bool },
    /// The number of transports is at its cap.
    MaxSessionsReached { max: usize },
    /// No transport is established with the peer.
    UnknownPeer { peer: ZenohId },
    /// The key expression is scoped, so it has no plain string form.
    ScopedKeyExpr,
    /// The key expression has a suffix, so it is not a bare id.
    SuffixedKeyExpr,
}

} // verus!
