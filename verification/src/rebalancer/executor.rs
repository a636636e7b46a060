//! The effects of a migration: what the driver asks of the hosts.

use vstd::prelude::*;

use crate::proto::ids::{HostId, TurnId, VmId};
use crate::time::Duration;

verus! {

/// What came of asking the source host to drain a VM.
#[derive(Clone, Copy, Debug, PartialEq, Eq, Structural)]
pub enum DrainOutcome {
    /// Every quiescence layer is satisfied.
    Quiescent,
    /// The deadline passed without quiescence. The turn wins: the migration must be called off.
    Busy {
        /// The turn still running, where a turn held it up.
        in_flight: Option<TurnId>,
    },
}

/// Why an effect failed.
#[derive(Debug, PartialEq, Eq)]
pub struct ExecError {
    /// The effect.
    pub op: &'static str,
    /// The VM it was for.
    pub vm: VmId,
    /// What went wrong.
    pub detail: String,
}

/// An effect that either happens or fails.
pub ghost enum Effect {
    /// Open the guest's gate again.
    CancelDrain {
        vm: VmId,
    },
    /// Pause the VM and write its snapshot.
    Snapshot {
        vm: VmId,
    },
    /// Stream the snapshot to a host.
    Transfer {
        vm: VmId,
        to: Seq<char>,
    },
    /// Restore the VM on a host.
    Restore {
        vm: VmId,
        to: Seq<char>,
    },
    /// Pass authority to a host.
    CutOver {
        vm: VmId,
        to: Seq<char>,
    },
    /// Tear down what is left on a host.
    Cleanup {
        vm: VmId,
        from: Seq<char>,
    },
}

/// One use of an executor and how it went.
pub ghost enum ExecEvent {
    /// A drain was asked for.
    Drain {
        vm: VmId,
        deadline: nat,
        answer: Result<DrainOutcome, ExecError>,
    },
    /// An effect was asked for.
    Done {
        effect: Effect,
        outcome: Result<(), ExecError>,
    },
}

/// What carries a migration out on the hosts.
pub trait MigrationExecutor: Sized {
    /// Every use of the executor so far, oldest first.
    ///
    /// This is ghost state. An implementation that is not verified cannot define it; the clauses
    /// below then say what it is relied on to do.
    closed spec fn log(&self) -> Seq<ExecEvent> {
        arbitrary()
    }

    /// Asks the source host to gate new turns and report quiescence, waiting up to `deadline`.
    fn request_drain(&mut self, vm: VmId, deadline: Duration) -> (r: Result<
        DrainOutcome,
        ExecError,
    >)
        ensures
            final(self).log() == old(self).log().push(
                ExecEvent::Drain { vm, deadline: deadline@, answer: r },
            ),
    ;

    /// Opens the guest's gate after a drain that was called off.
    fn cancel_drain(&mut self, vm: VmId) -> (r: Result<(), ExecError>)
        ensures
            final(self).log() == old(self).log().push(
                ExecEvent::Done { effect: Effect::CancelDrain { vm }, outcome: r },
            ),
    ;

    /// Pauses the VM and writes its snapshot on the source host.
    fn snapshot(&mut self, vm: VmId) -> (r: Result<(), ExecError>)
        ensures
            final(self).log() == old(self).log().push(
                ExecEvent::Done { effect: Effect::Snapshot { vm }, outcome: r },
            ),
    ;

    /// Streams the snapshot to `to`.
    fn transfer(&mut self, vm: VmId, to: HostId) -> (r: Result<(), ExecError>)
        ensures
            final(self).log() == old(self).log().push(
                ExecEvent::Done { effect: Effect::Transfer { vm, to: to@ }, outcome: r },
            ),
    ;

    /// Restores the VM on `to`.
    fn restore(&mut self, vm: VmId, to: HostId) -> (r: Result<(), ExecError>)
        ensures
            final(self).log() == old(self).log().push(
                ExecEvent::Done { effect: Effect::Restore { vm, to: to@ }, outcome: r },
            ),
    ;

    /// Passes authority to `to`.
    fn cutover(&mut self, vm: VmId, to: HostId) -> (r: Result<(), ExecError>)
        ensures
            final(self).log() == old(self).log().push(
                ExecEvent::Done { effect: Effect::CutOver { vm, to: to@ }, outcome: r },
            ),
    ;

    /// Tears down what is left on `from`.
    fn cleanup(&mut self, vm: VmId, from: HostId) -> (r: Result<(), ExecError>)
        ensures
            final(self).log() == old(self).log().push(
                ExecEvent::Done { effect: Effect::Cleanup { vm, from: from@ }, outcome: r },
            ),
    ;
}

} // verus!
