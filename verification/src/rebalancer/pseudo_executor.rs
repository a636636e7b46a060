//! A recording executor that touches no host.

use vstd::prelude::*;

use crate::proto::ids::{HostId, VmId};
use crate::rebalancer::executor;
use crate::rebalancer::executor::{DrainOutcome, ExecError, MigrationExecutor};
use crate::text;
use crate::text::same_text;
use crate::time::Duration;

verus! {

/// An executor that keeps the names of the effects it was asked for, answers drains with a
/// scripted outcome, and can be primed to fail one effect.
pub struct PseudoExecutor {
    calls: Vec<&'static str>,
    drain: DrainOutcome,
    fail: Option<(&'static str, String)>,
    log: Ghost<Seq<executor::ExecEvent>>,
}

impl PseudoExecutor {
    /// The names of the effects asked for, in order.
    pub closed spec fn called(&self) -> Seq<Seq<char>> {
        text::literal_views(self.calls@)
    }

    /// What drains are answered with.
    pub closed spec fn scripted(&self) -> DrainOutcome {
        self.drain
    }

    /// The effect that fails next, and the reason it will give.
    pub closed spec fn primed(&self) -> Option<(Seq<char>, Seq<char>)> {
        match self.fail {
            Some((op, detail)) => Some((op@, detail@)),
            None => None,
        }
    }

    /// Whether the effect `op` fails the next time it is asked for.
    pub open spec fn fails(&self, op: Seq<char>) -> bool {
        self.primed() matches Some((failing, _)) && failing == op
    }

    /// An executor whose drains find the guest quiescent.
    pub fn new() -> (exec: PseudoExecutor)
        ensures
            exec.called() == Seq::<Seq<char>>::empty(),
            exec.scripted() == DrainOutcome::Quiescent,
            exec.primed() is None,
            exec.log() == Seq::<executor::ExecEvent>::empty(),
    {
        PseudoExecutor::with_drain(DrainOutcome::Quiescent)
    }

    /// An executor that answers drains with `drain`.
    pub fn with_drain(drain: DrainOutcome) -> (exec: PseudoExecutor)
        ensures
            exec.called() == Seq::<Seq<char>>::empty(),
            exec.scripted() == drain,
            exec.primed() is None,
            exec.log() == Seq::<executor::ExecEvent>::empty(),
    {
        let exec = PseudoExecutor {
            calls: Vec::new(),
            drain,
            fail: None,
            log: Ghost(Seq::empty()),
        };
        proof {
            assert(exec.called() =~= Seq::<Seq<char>>::empty());
        }
        exec
    }

    /// Makes the next call of `op` fail with `detail`.
    pub fn fail_on(&mut self, op: &'static str, detail: &str)
        ensures
            final(self).primed() == Some((op@, detail@)),
            final(self).called() == old(self).called(),
            final(self).scripted() == old(self).scripted(),
            final(self).log() == old(self).log(),
    {
        self.fail = Some((op, detail.to_owned()));
    }

    /// The names of the effects asked for, in order.
    pub fn calls(&self) -> (calls: &Vec<&'static str>)
        ensures
            text::literal_views(calls@) == self.called(),
    {
        &self.calls
    }

    /// Keeps the call and fails it where it is primed to fail, once.
    fn record(&mut self, op: &'static str, vm: VmId) -> (r: Result<(), ExecError>)
        ensures
            final(self).called() == old(self).called().push(op@),
            final(self).scripted() == old(self).scripted(),
            final(self).log() == old(self).log(),
            recorded(*old(self), *final(self), op@, vm, r),
    {
        let ghost before = self.called();
        self.calls.push(op);
        proof {
            assert(self.called() =~= before.push(op@));
        }
        let failing: bool = match &self.fail {
            Some((failed_op, _)) => same_text(failed_op, op),
            None => false,
        };
        if failing {
            let primed = self.fail.take();
            if let Some((_, detail)) = primed {
                return Err(ExecError { op, vm, detail });
            }
        }
        Ok(())
    }
}

/// How a call of `op` for `vm` ends and what is primed afterwards.
pub open spec fn recorded(
    before: PseudoExecutor,
    after: PseudoExecutor,
    op: Seq<char>,
    vm: VmId,
    r: Result<(), ExecError>,
) -> bool {
    if before.fails(op) {
        &&& after.primed() is None
        &&& r matches Err(e) && e.op@ == op && e.vm == vm && e.detail@ == (before.primed()->0).1
    } else {
        after.primed() == before.primed() && r == Ok::<(), ExecError>(())
    }
}

impl Default for PseudoExecutor {
    fn default() -> (exec: PseudoExecutor)
        ensures
            exec.called() == Seq::<Seq<char>>::empty(),
            exec.scripted() == DrainOutcome::Quiescent,
            exec.primed() is None,
            exec.log() == Seq::<executor::ExecEvent>::empty(),
    {
        PseudoExecutor::new()
    }
}

impl MigrationExecutor for PseudoExecutor {
    closed spec fn log(&self) -> Seq<executor::ExecEvent> {
        self.log@
    }

    fn request_drain(&mut self, vm: VmId, deadline: Duration) -> (r: Result<
        DrainOutcome,
        ExecError,
    >)
        ensures
            final(self).called() == old(self).called().push("request_drain"@),
            final(self).scripted() == old(self).scripted(),
            match r {
                Ok(outcome) => outcome == old(self).scripted() && recorded(
                    *old(self),
                    *final(self),
                    "request_drain"@,
                    vm,
                    Ok(()),
                ),
                Err(e) => recorded(*old(self), *final(self), "request_drain"@, vm, Err(e)),
            },
    {
        let r: Result<DrainOutcome, ExecError> = match self.record("request_drain", vm) {
            Ok(()) => Ok(self.drain),
            Err(e) => Err(e),
        };
        self.log = Ghost(
            self.log@.push(executor::ExecEvent::Drain { vm, deadline: deadline@, answer: r }),
        );
        r
    }

    fn cancel_drain(&mut self, vm: VmId) -> (r: Result<(), ExecError>)
        ensures
            final(self).called() == old(self).called().push("cancel_drain"@),
            final(self).scripted() == old(self).scripted(),
            recorded(*old(self), *final(self), "cancel_drain"@, vm, r),
    {
        let r = self.record("cancel_drain", vm);
        self.log = Ghost(
            self.log@.push(
                executor::ExecEvent::Done {
                    effect: executor::Effect::CancelDrain { vm },
                    outcome: r,
                },
            ),
        );
        r
    }

    fn snapshot(&mut self, vm: VmId) -> (r: Result<(), ExecError>)
        ensures
            final(self).called() == old(self).called().push("snapshot"@),
            final(self).scripted() == old(self).scripted(),
            recorded(*old(self), *final(self), "snapshot"@, vm, r),
    {
        let r = self.record("snapshot", vm);
        self.log = Ghost(
            self.log@.push(
                executor::ExecEvent::Done {
                    effect: executor::Effect::Snapshot { vm },
                    outcome: r,
                },
            ),
        );
        r
    }

    fn transfer(&mut self, vm: VmId, to: HostId) -> (r: Result<(), ExecError>)
        ensures
            final(self).called() == old(self).called().push("transfer"@),
            final(self).scripted() == old(self).scripted(),
            recorded(*old(self), *final(self), "transfer"@, vm, r),
    {
        let r = self.record("transfer", vm);
        self.log = Ghost(
            self.log@.push(
                executor::ExecEvent::Done {
                    effect: executor::Effect::Transfer { vm, to: to@ },
                    outcome: r,
                },
            ),
        );
        r
    }

    fn restore(&mut self, vm: VmId, to: HostId) -> (r: Result<(), ExecError>)
        ensures
            final(self).called() == old(self).called().push("restore"@),
            final(self).scripted() == old(self).scripted(),
            recorded(*old(self), *final(self), "restore"@, vm, r),
    {
        let r = self.record("restore", vm);
        self.log = Ghost(
            self.log@.push(
                executor::ExecEvent::Done {
                    effect: executor::Effect::Restore { vm, to: to@ },
                    outcome: r,
                },
            ),
        );
        r
    }

    fn cutover(&mut self, vm: VmId, to: HostId) -> (r: Result<(), ExecError>)
        ensures
            final(self).called() == old(self).called().push("cutover"@),
            final(self).scripted() == old(self).scripted(),
            recorded(*old(self), *final(self), "cutover"@, vm, r),
    {
        let r = self.record("cutover", vm);
        self.log = Ghost(
            self.log@.push(
                executor::ExecEvent::Done {
                    effect: executor::Effect::CutOver { vm, to: to@ },
                    outcome: r,
                },
            ),
        );
        r
    }

    fn cleanup(&mut self, vm: VmId, from: HostId) -> (r: Result<(), ExecError>)
        ensures
            final(self).called() == old(self).called().push("cleanup"@),
            final(self).scripted() == old(self).scripted(),
            recorded(*old(self), *final(self), "cleanup"@, vm, r),
    {
        let r = self.record("cleanup", vm);
        self.log = Ghost(
            self.log@.push(
                executor::ExecEvent::Done {
                    effect: executor::Effect::Cleanup { vm, from: from@ },
                    outcome: r,
                },
            ),
        );
        r
    }
}

/// A stand-in that was told to fail an operation fails it once, with what it was told, for the VM that
/// it was asked for; another operation does not fail in its place.
pub proof fn law_primed_failure_comes_once(
    start: PseudoExecutor,
    other: PseudoExecutor,
    failed: PseudoExecutor,
    end: PseudoExecutor,
    ops: (Seq<char>, Seq<char>),
    detail: Seq<char>,
    vm: VmId,
    results: (Result<(), ExecError>, Result<(), ExecError>, Result<(), ExecError>),
)
    requires
        start.primed() == Some((ops.0, detail)),
        ops.1 != ops.0,
        recorded(start, other, ops.1, vm, results.0),
        recorded(other, failed, ops.0, vm, results.1),
        recorded(failed, end, ops.0, vm, results.2),
    ensures
        results.0 is Ok,
        results.1 matches Err(e) && e.op@ == ops.0 && e.vm == vm && e.detail@ == detail,
        results.2 is Ok,
{
}

} // verus!
