//! The messages between the guest daemon and its host, split by direction: a guest cannot build
//! a host's message, nor a host a guest's.

use std::collections::BTreeMap;

use vstd::prelude::*;

use crate::proto::ids::{GuestdVersion, Timestamp, TurnId, VmId};
use crate::time::Duration;

verus! {

/// What the guest daemon tells its host.
#[derive(Clone, Debug, PartialEq, Eq)]
pub enum GuestToHost {
    /// The first message after boot: binds the connection to a VM.
    Hello {
        /// Which VM this guest is.
        vm_id: VmId,
        /// The guest daemon's build version.
        guestd_version: GuestdVersion,
    },
    /// A turn has started: from here on the VM is busy.
    TurnStarted {
        /// The turn that began.
        turn_id: TurnId,
        /// When the guest observed the start.
        ts: Timestamp,
    },
    /// The turn has finished.
    TurnEnded {
        /// The turn that ended.
        turn_id: TurnId,
        /// When the guest observed the end.
        ts: Timestamp,
    },
    /// The answer to a drain request. `None` means that new turns are gated and none is running.
    DrainAck {
        /// The turn still running, if any.
        in_flight: Option<TurnId>,
    },
    /// The first message after a restore on the target host.
    Resumed {
        /// The guest's clock at resume, before it is put right.
        ts: Timestamp,
    },
    /// Liveness probe.
    Ping,
    /// Answer to a probe.
    Pong,
}

/// What the host tells the guest daemon.
#[derive(Clone, Debug, PartialEq, Eq)]
pub enum HostToGuest {
    /// The secrets of the workload, handed over at boot and never written to disk.
    Secrets {
        /// Environment variables to inject.
        env: BTreeMap<String, String>,
    },
    /// Run one turn under the host's number for it.
    RunTurn {
        /// The turn to run.
        turn_id: TurnId,
    },
    /// Gate new turns and report what is in flight.
    DrainRequest {
        /// How long the host waits for an in-flight turn.
        deadline: Duration,
    },
    /// The migration was called off: let turns run again.
    DrainCancel,
    /// Liveness probe.
    Ping,
    /// Answer to a probe.
    Pong,
}

} // verus!
