//! The phases of a migration, as types. They are tags: a migration names one, and none holds data.

use vstd::prelude::*;

use crate::proto::fsm::{Abortable, MigrationState, Phase};
use crate::proto::sealed::Sealed;

verus! {

/// Decided, nothing done yet.
#[derive(Clone, Copy, Debug, PartialEq, Eq, Hash)]
pub struct Intent {}

impl Sealed for Intent {

}

impl Phase for Intent {
    open spec fn tag() -> MigrationState {
        MigrationState::Intent
    }

    fn state_tag() -> MigrationState {
        MigrationState::Intent
    }
}

impl Abortable for Intent {
    proof fn comes_before_snapshot() {
    }
}

/// Gating new turns, waiting for quiescence.
#[derive(Clone, Copy, Debug, PartialEq, Eq, Hash)]
pub struct Draining {}

impl Sealed for Draining {

}

impl Phase for Draining {
    open spec fn tag() -> MigrationState {
        MigrationState::Draining
    }

    fn state_tag() -> MigrationState {
        MigrationState::Draining
    }
}

impl Abortable for Draining {
    proof fn comes_before_snapshot() {
    }
}

/// Verified quiescent, ready for the snapshot.
#[derive(Clone, Copy, Debug, PartialEq, Eq, Hash)]
pub struct Quiescent {}

impl Sealed for Quiescent {

}

impl Phase for Quiescent {
    open spec fn tag() -> MigrationState {
        MigrationState::Quiescent
    }

    fn state_tag() -> MigrationState {
        MigrationState::Quiescent
    }
}

impl Abortable for Quiescent {
    proof fn comes_before_snapshot() {
    }
}

/// Pausing the VM and writing the snapshot.
#[derive(Clone, Copy, Debug, PartialEq, Eq, Hash)]
pub struct Snapshotting {}

impl Sealed for Snapshotting {

}

impl Phase for Snapshotting {
    open spec fn tag() -> MigrationState {
        MigrationState::Snapshotting
    }

    fn state_tag() -> MigrationState {
        MigrationState::Snapshotting
    }
}

/// Streaming the snapshot to the target.
#[derive(Clone, Copy, Debug, PartialEq, Eq, Hash)]
pub struct Transferring {}

impl Sealed for Transferring {

}

impl Phase for Transferring {
    open spec fn tag() -> MigrationState {
        MigrationState::Transferring
    }

    fn state_tag() -> MigrationState {
        MigrationState::Transferring
    }
}

/// The target restores from the snapshot.
#[derive(Clone, Copy, Debug, PartialEq, Eq, Hash)]
pub struct Restoring {}

impl Sealed for Restoring {

}

impl Phase for Restoring {
    open spec fn tag() -> MigrationState {
        MigrationState::Restoring
    }

    fn state_tag() -> MigrationState {
        MigrationState::Restoring
    }
}

/// Authority passes to the target.
#[derive(Clone, Copy, Debug, PartialEq, Eq, Hash)]
pub struct CutOver {}

impl Sealed for CutOver {

}

impl Phase for CutOver {
    open spec fn tag() -> MigrationState {
        MigrationState::CutOver
    }

    fn state_tag() -> MigrationState {
        MigrationState::CutOver
    }
}

/// Tearing down what is left on the source.
#[derive(Clone, Copy, Debug, PartialEq, Eq, Hash)]
pub struct Cleanup {}

impl Sealed for Cleanup {

}

impl Phase for Cleanup {
    open spec fn tag() -> MigrationState {
        MigrationState::Cleanup
    }

    fn state_tag() -> MigrationState {
        MigrationState::Cleanup
    }
}

/// Called off before the snapshot; the VM stays on the source.
#[derive(Clone, Copy, Debug, PartialEq, Eq, Hash)]
pub struct Stable {}

impl Sealed for Stable {

}

impl Phase for Stable {
    open spec fn tag() -> MigrationState {
        MigrationState::Aborted
    }

    fn state_tag() -> MigrationState {
        MigrationState::Aborted
    }
}

} // verus!
