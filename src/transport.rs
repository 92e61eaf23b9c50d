//! Parameters that identify a unicast transport.
use vstd::prelude::*;

verus! {

/// A peer identity (128 bits).
#[derive(PartialEq, Eq, Structural, Clone, Copy, Debug, Hash)]
pub struct ZenohId {
    pub id: u128,
}

/// The role of a peer.
#[derive(PartialEq, Eq, Structural, Clone, Copy, Debug, Hash)]
pub enum WhatAmI {
    Router,
    Peer,
    Client,
}

/// What the establishment protocol negotiated with a peer.
#[derive(PartialEq, Eq, Structural, Clone, Copy, Debug)]
pub struct TransportConfigUnicast {
    pub peer: ZenohId,
    pub whatami: WhatAmI,
    pub sn_resolution: u64,
    pub tx_initial_sn: u64,
    pub is_shm: bool,
    pub is_qos: bool,
}

/// Handle on an established transport: the parameters it was created with.
#[derive(PartialEq, Eq, Structural, Clone, Copy, Debug)]
pub struct TransportUnicast {
    pub config: TransportConfigUnicast,
}

/// Why a transport is closed; the manager closes with `Generic` on shutdown.
#[derive(PartialEq, Eq, Structural, Clone, Copy, Debug)]
pub enum CloseReason {
    Generic,
    Expired,
    MaxSessions,
}

} // verus!
