//! The migration state machine.
//!
//! [`Migration<S>`] carries its phase in its type, so only the transitions that are legal from a
//! phase exist on it: there is no snapshot before quiescence and no abort after the snapshot.
//! [`MigrationState`] is the same phase as a value, for logs and metrics.
//!
//! The way forward is `Intent`, `Draining`, `Quiescent`, `Snapshotting`, `Transferring`,
//! `Restoring`, `CutOver`, `Cleanup`.

use core::marker::PhantomData;

use vstd::prelude::*;

use crate::proto::ids::{HostId, VmId};
use crate::proto::sealed::Sealed;
use crate::proto::state;

verus! {

/// The phase of a migration as a value.
#[derive(Clone, Copy, Debug, PartialEq, Eq, Hash, Structural)]
pub enum MigrationState {
    /// No migration is under way.
    Stable,
    /// Decided, nothing done yet.
    Intent,
    /// New turns are gated; waiting for quiescence.
    Draining,
    /// Every quiescence layer is satisfied.
    Quiescent,
    /// Pausing the VM and writing the snapshot. From here on there is no abort.
    Snapshotting,
    /// Streaming the snapshot to the target.
    Transferring,
    /// The target restores from the snapshot.
    Restoring,
    /// Authority passes to the target.
    CutOver,
    /// Tearing down what is left on the source.
    Cleanup,
    /// Called off before the snapshot; the VM stays where it was.
    Aborted,
}

/// A phase of a migration.
pub trait Phase: Sealed {
    /// The phase as a value.
    spec fn tag() -> MigrationState;

    /// The phase as a value.
    fn state_tag() -> (state: MigrationState)
        ensures
            state == Self::tag(),
    ;
}

/// A phase from which a migration can still be called off: one that comes before the snapshot.
pub trait Abortable: Phase {
    /// The phase comes before the snapshot.
    proof fn comes_before_snapshot()
        ensures
            before_snapshot(Self::tag()),
    ;
}

/// Whether a migration can still be called off in a state.
pub open spec fn before_snapshot(state: MigrationState) -> bool {
    state == MigrationState::Intent || state == MigrationState::Draining || state
        == MigrationState::Quiescent
}

/// What a migration carries from phase to phase.
pub ghost struct Move {
    /// The VM being moved.
    pub vm: VmId,
    /// The source host's name.
    pub from: Seq<char>,
    /// The target host's name.
    pub to: Seq<char>,
}

/// The move of one VM from a source host to a target host, in phase `S`. Each transition consumes
/// the migration, so a handle to a past phase cannot be used.
pub struct Migration<S: Phase> {
    vm: VmId,
    from: HostId,
    to: HostId,
    phase: PhantomData<S>,
}

impl<S: Phase> View for Migration<S> {
    type V = Move;

    /// The VM and the hosts.
    closed spec fn view(&self) -> Move {
        Move { vm: self.vm, from: self.from@, to: self.to@ }
    }
}

impl<S: Phase> Migration<S> {
    /// The VM being moved.
    pub fn vm(&self) -> (vm: VmId)
        ensures
            vm == self@.vm,
    {
        self.vm
    }

    /// The source host.
    pub fn from(&self) -> (host: &HostId)
        ensures
            host@ == self@.from,
    {
        &self.from
    }

    /// The target host.
    pub fn to(&self) -> (host: &HostId)
        ensures
            host@ == self@.to,
    {
        &self.to
    }

    /// The phase as a value.
    pub fn state(&self) -> (state: MigrationState)
        ensures
            state == S::tag(),
    {
        S::state_tag()
    }

    /// The same move in phase `T`.
    fn advance<T: Phase>(self) -> (next: Migration<T>)
        ensures
            next@ == self@,
    {
        Migration { vm: self.vm, from: self.from, to: self.to, phase: PhantomData }
    }
}

impl Migration<state::Intent> {
    /// The decision to move `vm` from `from` to `to`. Nothing has happened to the VM yet.
    pub fn intent(vm: VmId, from: HostId, to: HostId) -> (m: Migration<state::Intent>)
        ensures
            m@ == (Move { vm, from: from@, to: to@ }),
    {
        Migration { vm, from, to, phase: PhantomData }
    }

    /// Issues the drain request and begins gating new turns.
    pub fn drain(self) -> (next: Migration<state::Draining>)
        ensures
            next@ == self@,
    {
        self.advance()
    }
}

impl Migration<state::Draining> {
    /// Every quiescence layer is satisfied.
    pub fn quiescent(self) -> (next: Migration<state::Quiescent>)
        ensures
            next@ == self@,
    {
        self.advance()
    }
}

impl Migration<state::Quiescent> {
    /// Pauses the VM and writes the snapshot. From here on there is no abort.
    pub fn snapshot(self) -> (next: Migration<state::Snapshotting>)
        ensures
            next@ == self@,
    {
        self.advance()
    }
}

impl Migration<state::Snapshotting> {
    /// Begins streaming the snapshot to the target.
    pub fn transfer(self) -> (next: Migration<state::Transferring>)
        ensures
            next@ == self@,
    {
        self.advance()
    }
}

impl Migration<state::Transferring> {
    /// The target begins restoring.
    pub fn restore(self) -> (next: Migration<state::Restoring>)
        ensures
            next@ == self@,
    {
        self.advance()
    }
}

impl Migration<state::Restoring> {
    /// Authority passes to the target.
    pub fn cutover(self) -> (next: Migration<state::CutOver>)
        ensures
            next@ == self@,
    {
        self.advance()
    }
}

impl Migration<state::CutOver> {
    /// Tears down what is left on the source. The last phase of a migration that succeeds.
    pub fn cleanup(self) -> (next: Migration<state::Cleanup>)
        ensures
            next@ == self@,
    {
        self.advance()
    }
}

impl<S: Abortable> Migration<S> {
    /// Calls the migration off; the VM stays on the source. Only phases before the snapshot have
    /// this method.
    pub fn abort(self) -> (stable: Migration<state::Stable>)
        ensures
            stable@ == self@,
            before_snapshot(S::tag()),
    {
        proof {
            S::comes_before_snapshot();
        }
        self.advance()
    }
}

} // verus!
