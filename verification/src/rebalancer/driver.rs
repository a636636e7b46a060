//! The carrying out of one migration.
//!
//! The driver walks a migration from intent to cleanup and asks the executor for each effect on
//! the way. A guest that does not drain in time is left alone: the drain is cancelled and nothing
//! is snapshotted. Once the snapshot has been asked for there is no way back: a later failure is
//! reported, never rolled back in silence.

use vstd::prelude::*;

use crate::proto::fsm::Migration;
use crate::proto::ids::VmId;
use crate::proto::state;
use crate::rebalancer::executor;
use crate::rebalancer::executor::{DrainOutcome, ExecError, MigrationExecutor};
use crate::time::Duration;

verus! {

/// How a migration ended.
#[derive(Clone, Copy, Debug, PartialEq, Eq, Structural)]
pub enum MigrationOutcome {
    /// The VM was moved and the source cleaned up.
    Completed,
    /// The migration was called off before the snapshot; the VM stayed on the source.
    Aborted(AbortReason),
}

/// Why a migration was called off.
#[derive(Clone, Copy, Debug, PartialEq, Eq, Structural)]
pub enum AbortReason {
    /// The guest was not quiescent by the deadline.
    NotQuiescent,
}

/// What stopped a migration halfway.
#[derive(Debug, PartialEq, Eq)]
pub enum MigrationError {
    /// An effect failed.
    Executor(ExecError),
}

/// The effects that move a quiescent VM, in order.
pub open spec fn moving_effects(vm: VmId, from: Seq<char>, to: Seq<char>) -> Seq<executor::Effect> {
    seq![
        executor::Effect::Snapshot { vm },
        executor::Effect::Transfer { vm, to },
        executor::Effect::Restore { vm, to },
        executor::Effect::CutOver { vm, to },
        executor::Effect::Cleanup { vm, from },
    ]
}

/// The effects that leave a busy VM alone.
pub open spec fn standing_down(vm: VmId) -> Seq<executor::Effect> {
    seq![executor::Effect::CancelDrain { vm }]
}

/// The effect of an event.
pub open spec fn did(event: executor::ExecEvent, effect: executor::Effect) -> bool {
    event matches executor::ExecEvent::Done { effect: e, .. } && e == effect
}

/// Whether an event went well.
pub open spec fn went_well(event: executor::ExecEvent) -> bool {
    event matches executor::ExecEvent::Done { outcome, .. } && outcome is Ok
}

/// Whether `events` are the effects asked for one by one, each after the one before it went well,
/// until all were done or one failed; `r` is the failure, if there was one.
pub open spec fn ran(effects: Seq<executor::Effect>, events: Seq<executor::ExecEvent>, r: Result<(), ExecError>) -> bool {
    &&& events.len() <= effects.len()
    &&& forall|i: int| 0 <= i < events.len() ==> did(#[trigger] events[i], effects[i])
    &&& forall|i: int| 0 <= i < events.len() - 1 ==> went_well(#[trigger] events[i])
    &&& match r {
        Ok(_) => events.len() == effects.len() && forall|i: int|
            0 <= i < events.len() ==> went_well(#[trigger] events[i]),
        Err(e) => events.len() > 0 && (events.last() matches executor::ExecEvent::Done { outcome, .. }
            && outcome == Err::<(), ExecError>(e)),
    }
}

/// What driving a migration of `vm` from `from` to `to` adds to the executor's log, and how it
/// ends.
pub open spec fn driven(
    vm: VmId,
    from: Seq<char>,
    to: Seq<char>,
    deadline: nat,
    events: Seq<executor::ExecEvent>,
    r: Result<MigrationOutcome, MigrationError>,
) -> bool {
    &&& events.len() > 0
    &&& events[0] matches executor::ExecEvent::Drain { vm: v, deadline: d, answer } && {
        &&& v == vm
        &&& d == deadline
        &&& match answer {
            Err(e) => events.len() == 1 && r == Err::<MigrationOutcome, MigrationError>(
                MigrationError::Executor(e),
            ),
            Ok(DrainOutcome::Busy { .. }) => match r {
                Ok(outcome) => outcome == MigrationOutcome::Aborted(AbortReason::NotQuiescent)
                    && ran(standing_down(vm), events.skip(1), Ok(())),
                Err(MigrationError::Executor(e)) => ran(
                    standing_down(vm),
                    events.skip(1),
                    Err(e),
                ),
            },
            Ok(DrainOutcome::Quiescent) => match r {
                Ok(outcome) => outcome == MigrationOutcome::Completed && ran(
                    moving_effects(vm, from, to),
                    events.skip(1),
                    Ok(()),
                ),
                Err(MigrationError::Executor(e)) => ran(
                    moving_effects(vm, from, to),
                    events.skip(1),
                    Err(e),
                ),
            },
        }
    }
}

/// Drives a migration from its intent to its end.
pub fn drive<E: MigrationExecutor>(
    migration: Migration<state::Intent>,
    exec: &mut E,
    drain_deadline: Duration,
) -> (r: Result<MigrationOutcome, MigrationError>)
    ensures
        final(exec).log().len() >= old(exec).log().len(),
        final(exec).log().take(old(exec).log().len() as int) == old(exec).log(),
        driven(
            migration@.vm,
            migration@.from,
            migration@.to,
            drain_deadline@,
            final(exec).log().skip(old(exec).log().len() as int),
            r,
        ),
{
    let ghost log = exec.log();
    let ghost n = log.len() as int;
    let vm = migration.vm();
    let to = migration.to().clone();
    let from = migration.from().clone();
    let draining = migration.drain();
    let answer = exec.request_drain(vm, drain_deadline);
    proof {
        assert(exec.log().take(n) =~= log);
    }
    match answer {
        Err(e) => Err(MigrationError::Executor(e)),
        Ok(DrainOutcome::Busy { .. }) => {
            let cancelled = exec.cancel_drain(vm);
            proof {
                assert(exec.log().take(n) =~= log);
            }
            match cancelled {
                Err(e) => Err(MigrationError::Executor(e)),
                Ok(()) => {
                    let _stable: Migration<state::Stable> = draining.abort();
                    Ok(MigrationOutcome::Aborted(AbortReason::NotQuiescent))
                },
            }
        },
        Ok(DrainOutcome::Quiescent) => {
            let quiescent = draining.quiescent();
            let done = exec.snapshot(vm);
            proof {
                assert(exec.log().take(n) =~= log);
            }
            if let Err(e) = done {
                return Err(MigrationError::Executor(e));
            }
            let snapshotting = quiescent.snapshot();
            let done = exec.transfer(vm, to.clone());
            proof {
                assert(exec.log().take(n) =~= log);
            }
            if let Err(e) = done {
                return Err(MigrationError::Executor(e));
            }
            let transferring = snapshotting.transfer();
            let done = exec.restore(vm, to.clone());
            proof {
                assert(exec.log().take(n) =~= log);
            }
            if let Err(e) = done {
                return Err(MigrationError::Executor(e));
            }
            let restoring = transferring.restore();
            let done = exec.cutover(vm, to.clone());
            proof {
                assert(exec.log().take(n) =~= log);
            }
            if let Err(e) = done {
                return Err(MigrationError::Executor(e));
            }
            let cutover = restoring.cutover();
            let done = exec.cleanup(vm, from);
            proof {
                assert(exec.log().take(n) =~= log);
            }
            if let Err(e) = done {
                return Err(MigrationError::Executor(e));
            }
            let _cleanup: Migration<state::Cleanup> = cutover.cleanup();
            Ok(MigrationOutcome::Completed)
        },
    }
}

/// The race rule: a VM is snapshotted only after its drain was answered with quiescence.
pub proof fn law_only_quiescent_guests_are_snapshotted(
    vm: VmId,
    from: Seq<char>,
    to: Seq<char>,
    deadline: nat,
    events: Seq<executor::ExecEvent>,
    r: Result<MigrationOutcome, MigrationError>,
    i: int,
)
    requires
        driven(vm, from, to, deadline, events, r),
        0 <= i < events.len(),
        did(events[i], executor::Effect::Snapshot { vm }),
    ensures
        events[0] matches executor::ExecEvent::Drain { answer, .. } && answer == Ok::<DrainOutcome, ExecError>(
            DrainOutcome::Quiescent,
        ),
{
    if i > 0 {
        assert(events.skip(1)[i - 1] == events[i]);
    }
}

/// No way back: once the snapshot has been asked for, the drain is not cancelled any more, and the
/// migration does not end as called off.
pub proof fn law_no_rollback_after_snapshot(
    vm: VmId,
    from: Seq<char>,
    to: Seq<char>,
    deadline: nat,
    events: Seq<executor::ExecEvent>,
    r: Result<MigrationOutcome, MigrationError>,
    i: int,
    j: int,
)
    requires
        driven(vm, from, to, deadline, events, r),
        0 <= i < events.len(),
        0 <= j < events.len(),
        did(events[i], executor::Effect::Snapshot { vm }),
    ensures
        !did(events[j], executor::Effect::CancelDrain { vm }),
        !(r matches Ok(MigrationOutcome::Aborted(_))),
{
    law_only_quiescent_guests_are_snapshotted(vm, from, to, deadline, events, r, i);
    if j > 0 {
        assert(events.skip(1)[j - 1] == events[j]);
        assert(did(events.skip(1)[j - 1], moving_effects(vm, from, to)[j - 1]));
    }
}

/// A migration that is called off was called off before any effect but the cancelling of its drain.
pub proof fn law_aborted_migration_touched_nothing(
    vm: VmId,
    from: Seq<char>,
    to: Seq<char>,
    deadline: nat,
    events: Seq<executor::ExecEvent>,
    r: Result<MigrationOutcome, MigrationError>,
)
    requires
        driven(vm, from, to, deadline, events, r),
        r matches Ok(MigrationOutcome::Aborted(_)),
    ensures
        events.len() == 2,
        did(events[1], executor::Effect::CancelDrain { vm }),
{
    assert(events.skip(1)[0] == events[1]);
    assert(did(events.skip(1)[0], standing_down(vm)[0]));
}

/// Every effect is asked for on the right host: the VM is transferred to, restored on and cut over to
/// the migration's target, and what is cleaned up is the migration's source, never the target. Each
/// is asked for the migration's own VM.
pub proof fn law_effects_name_the_right_host(
    vm: VmId,
    from: Seq<char>,
    to: Seq<char>,
    deadline: nat,
    events: Seq<executor::ExecEvent>,
    r: Result<MigrationOutcome, MigrationError>,
    i: int,
)
    requires
        driven(vm, from, to, deadline, events, r),
        0 <= i < events.len(),
    ensures
        match events[i] {
            executor::ExecEvent::Drain { vm: v, deadline: d, .. } => i == 0 && v == vm && d
                == deadline,
            executor::ExecEvent::Done { effect, .. } => match effect {
                executor::Effect::CancelDrain { vm: v } => v == vm,
                executor::Effect::Snapshot { vm: v } => v == vm,
                executor::Effect::Transfer { vm: v, to: host } => v == vm && host == to,
                executor::Effect::Restore { vm: v, to: host } => v == vm && host == to,
                executor::Effect::CutOver { vm: v, to: host } => v == vm && host == to,
                executor::Effect::Cleanup { vm: v, from: host } => v == vm && host == from,
            },
        },
        from != to ==> !did(events[i], executor::Effect::Cleanup { vm, from: to }),
{
    if i > 0 {
        let rest = events.skip(1);
        assert(rest[i - 1] == events[i]);
        let answer = events[0]->answer;
        if answer matches Ok(DrainOutcome::Quiescent) {
            assert(did(rest[i - 1], moving_effects(vm, from, to)[i - 1]));
        } else {
            assert(did(rest[i - 1], standing_down(vm)[i - 1]));
        }
    }
}

/// Whether an event is of the stage: snapshot, transfer, restore, cut-over and clean-up come in this
/// order, from one to five.
pub open spec fn stage_of(event: executor::ExecEvent) -> int {
    match event {
        executor::ExecEvent::Drain { .. } => 0,
        executor::ExecEvent::Done { effect, .. } => match effect {
            executor::Effect::CancelDrain { .. } => -1,
            executor::Effect::Snapshot { .. } => 1,
            executor::Effect::Transfer { .. } => 2,
            executor::Effect::Restore { .. } => 3,
            executor::Effect::CutOver { .. } => 4,
            executor::Effect::Cleanup { .. } => 5,
        },
    }
}

/// No stage is skipped and none runs ahead: where an effect of a quiescent VM's move is asked for,
/// each stage before it was asked for just before, and went well. So the source is cleaned up only
/// after authority has passed, authority passes only to a restored VM, and only what was transferred
/// whole is restored. A move that is complete went through all five.
pub proof fn law_stages_follow_one_another(
    vm: VmId,
    from: Seq<char>,
    to: Seq<char>,
    deadline: nat,
    events: Seq<executor::ExecEvent>,
    r: Result<MigrationOutcome, MigrationError>,
)
    requires
        driven(vm, from, to, deadline, events, r),
    ensures
        forall|i: int|
            0 < i < events.len() && stage_of(#[trigger] events[i]) > 0 ==> stage_of(events[i]) == i,
        forall|i: int, j: int|
            0 < j < i < events.len() ==> stage_of(#[trigger] events[i]) > 0 && went_well(
                #[trigger] events[j],
            ),
        r == Ok::<MigrationOutcome, MigrationError>(MigrationOutcome::Completed) ==> events.len()
            == 6 && stage_of(events[5]) == 5 && went_well(events[5]),
        r is Err ==> !went_well(events.last()),
{
    let rest = events.skip(1);
    let answer = events[0]->answer;
    assert forall|i: int| 0 < i < events.len() implies {
        &&& stage_of(#[trigger] events[i]) > 0 ==> stage_of(events[i]) == i
        &&& i > 1 ==> stage_of(events[i]) > 0
    } by {
        assert(rest[i - 1] == events[i]);
        if answer matches Ok(DrainOutcome::Quiescent) {
            assert(did(rest[i - 1], moving_effects(vm, from, to)[i - 1]));
        } else {
            assert(did(rest[i - 1], standing_down(vm)[i - 1]));
        }
    }
    assert forall|i: int, j: int| 0 < j < i < events.len() implies stage_of(#[trigger] events[i])
        > 0 && went_well(#[trigger] events[j]) by {
        assert(rest[j - 1] == events[j]);
        assert(rest[i - 1] == events[i]);
    }
    if events.len() > 1 {
        assert(rest.last() == events.last());
        assert(rest[rest.len() - 1] == events.last());
    }
}

/// What comes of a migration follows what the executor answered: a drain that fails ends it at once
/// and is its error; a guest that is busy is let go on, and that is an abort; a guest that is idle is
/// moved, and where every step went well the migration is complete. A step that fails is the error.
pub proof fn law_outcome_follows_the_answers(
    vm: VmId,
    from: Seq<char>,
    to: Seq<char>,
    deadline: nat,
    events: Seq<executor::ExecEvent>,
    r: Result<MigrationOutcome, MigrationError>,
)
    requires
        driven(vm, from, to, deadline, events, r),
    ensures
        events[0] matches executor::ExecEvent::Drain { answer, .. } && match answer {
            Err(e) => events.len() == 1 && r == Err::<MigrationOutcome, MigrationError>(
                MigrationError::Executor(e),
            ),
            Ok(DrainOutcome::Busy { .. }) => {
                &&& events.len() == 2
                &&& stage_of(events[1]) == -1
                &&& went_well(events[1]) ==> (r matches Ok(MigrationOutcome::Aborted(_)))
            },
            Ok(DrainOutcome::Quiescent) => {
                &&& 2 <= events.len() <= 6
                &&& stage_of(events[1]) == 1
                &&& events.len() == 6 && went_well(events[5]) ==> (r matches Ok(
                    MigrationOutcome::Completed,
                ))
                &&& events.len() < 6 ==> r is Err
            },
        },
        r matches Err(MigrationError::Executor(e)) ==> match events.last() {
            executor::ExecEvent::Drain { answer, .. } => answer == Err::<DrainOutcome, ExecError>(e),
            executor::ExecEvent::Done { outcome, .. } => outcome == Err::<(), ExecError>(e),
        },
{
    let rest = events.skip(1);
    if events.len() > 1 {
        assert(rest[0] == events[1]);
        assert(rest.last() == events.last());
        if events[0]->answer == Ok::<DrainOutcome, ExecError>(DrainOutcome::Quiescent) {
            assert(did(rest[0], moving_effects(vm, from, to)[0]));
            if events.len() == 6 {
                assert(rest[4] == events[5]);
            }
        } else {
            assert(did(rest[0], standing_down(vm)[0]));
        }
    }
}

} // verus!
