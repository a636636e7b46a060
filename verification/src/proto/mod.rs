//! The contract between guests, hosts and the rebalancer: identifiers, the wire messages, host
//! compatibility classes and the migration state machine.

use vstd::prelude::*;

pub mod compat;
pub mod fsm;
pub mod ids;
mod sealed;
pub mod state;
pub mod vsock;
pub mod wire;

verus! {

/// The guest protocol version this build speaks.
pub const PROTOCOL_VERSION: &'static str = "v1-draft";

/// The vsock port the host reaches the guest daemon on.
pub const GUEST_VSOCK_PORT: u32 = 5252;

/// The TCP port the host drains a networked guest on.
pub const GUEST_DRAIN_TCP_PORT: u16 = 5253;

} // verus!
