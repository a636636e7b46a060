//! The lifecycle of one VM.
//!
//! An operation that is not legal in the VM's state is refused before Firecracker hears of it, and
//! one that Firecracker fails leaves the state as it was.

use vstd::prelude::*;

use crate::hostd::fc::{FcError, FcOp, FirecrackerApi};
use crate::proto::ids::VmId;

verus! {

/// Where a VM is in its life.
#[derive(Clone, Copy, Debug, PartialEq, Eq, Structural)]
pub enum RunState {
    /// Configured, not booted.
    Created,
    /// Booted, its vCPUs running.
    Running,
    /// Its vCPUs stopped; may be snapshotted.
    Paused,
    /// Shut down for good.
    Stopped,
}

/// Why an operation was not carried out.
#[derive(Debug, PartialEq, Eq)]
pub enum LifecycleError {
    /// It is not legal in the VM's state.
    IllegalTransition {
        /// The state.
        from: RunState,
        /// The operation.
        op: &'static str,
    },
    /// It is legal, but Firecracker failed it.
    Fc(FcError),
}

/// The state that an operation leads to, or `None` where it is not legal.
pub open spec fn leads_to(from: RunState, op: FcOp) -> Option<RunState> {
    match (from, op) {
        (RunState::Created, FcOp::Boot) => Some(RunState::Running),
        (RunState::Running, FcOp::Pause) => Some(RunState::Paused),
        (RunState::Paused, FcOp::Resume) => Some(RunState::Running),
        (RunState::Running, FcOp::Shutdown) => Some(RunState::Stopped),
        (RunState::Paused, FcOp::Shutdown) => Some(RunState::Stopped),
        _ => None,
    }
}

/// A VM, what drives it, and where it is in its life.
pub struct Vm<F: FirecrackerApi> {
    id: VmId,
    fc: F,
    state: RunState,
}

/// What an operation does to a VM: `before` and `after` are its states and Firecracker's logs
/// around it.
pub open spec fn carried_out<F: FirecrackerApi>(
    before: Vm<F>,
    after: Vm<F>,
    op: FcOp,
    r: Result<(), LifecycleError>,
) -> bool {
    &&& after.ident() == before.ident()
    &&& match leads_to(before.run_state(), op) {
        None => {
            &&& after.run_state() == before.run_state()
            &&& after.fc_log() == before.fc_log()
            &&& r matches Err(LifecycleError::IllegalTransition { from, op: name }) && from
                == before.run_state() && name@ == op.name()
        },
        Some(next) => {
            &&& after.fc_log() == before.fc_log().push((op, after.fc_log().last().1))
            &&& match after.fc_log().last().1 {
                Ok(_) => after.run_state() == next && r == Ok::<(), LifecycleError>(()),
                Err(e) => after.run_state() == before.run_state() && r == Err::<
                    (),
                    LifecycleError,
                >(LifecycleError::Fc(e)),
            }
        },
    }
}

impl<F: FirecrackerApi> Vm<F> {
    /// The VM's id.
    pub closed spec fn ident(&self) -> VmId {
        self.id
    }

    /// Where the VM is in its life.
    pub closed spec fn run_state(&self) -> RunState {
        self.state
    }

    /// What Firecracker was asked for.
    pub closed spec fn fc_log(&self) -> Seq<(FcOp, Result<(), FcError>)> {
        self.fc.log()
    }

    /// A configured VM. Firecracker hears nothing of it yet.
    pub fn new(id: VmId, fc: F) -> (vm: Vm<F>)
        ensures
            vm.ident() == id,
            vm.run_state() == RunState::Created,
            vm.fc_log() == fc.log(),
    {
        Vm { id, fc, state: RunState::Created }
    }

    /// The VM's id.
    pub fn id(&self) -> (id: VmId)
        ensures
            id == self.ident(),
    {
        self.id
    }

    /// Where the VM is in its life.
    pub fn state(&self) -> (state: RunState)
        ensures
            state == self.run_state(),
    {
        self.state
    }

    /// What drives the VM.
    pub fn firecracker(&self) -> (fc: &F)
        ensures
            fc.log() == self.fc_log(),
    {
        &self.fc
    }

    /// What drives the VM, for the caller to change. The VM's state stays as it is.
    pub fn firecracker_mut(&mut self) -> (fc: &mut F)
        ensures
            fc.log() == old(self).fc_log(),
            final(self).ident() == old(self).ident(),
            final(self).run_state() == old(self).run_state(),
            final(self).fc_log() == final(fc).log(),
    {
        &mut self.fc
    }

    /// Boots the guest.
    pub fn boot(&mut self) -> (r: Result<(), LifecycleError>)
        ensures
            carried_out(*old(self), *final(self), FcOp::Boot, r),
    {
        match self.state {
            RunState::Created => {},
            from => {
                return Err(LifecycleError::IllegalTransition { from, op: "boot" });
            },
        }
        match self.fc.boot() {
            Ok(()) => {
                self.state = RunState::Running;
                Ok(())
            },
            Err(e) => Err(LifecycleError::Fc(e)),
        }
    }

    /// Pauses the VM.
    pub fn pause(&mut self) -> (r: Result<(), LifecycleError>)
        ensures
            carried_out(*old(self), *final(self), FcOp::Pause, r),
    {
        match self.state {
            RunState::Running => {},
            from => {
                return Err(LifecycleError::IllegalTransition { from, op: "pause" });
            },
        }
        match self.fc.pause() {
            Ok(()) => {
                self.state = RunState::Paused;
                Ok(())
            },
            Err(e) => Err(LifecycleError::Fc(e)),
        }
    }

    /// Lets a paused VM run again.
    pub fn resume(&mut self) -> (r: Result<(), LifecycleError>)
        ensures
            carried_out(*old(self), *final(self), FcOp::Resume, r),
    {
        match self.state {
            RunState::Paused => {},
            from => {
                return Err(LifecycleError::IllegalTransition { from, op: "resume" });
            },
        }
        match self.fc.resume() {
            Ok(()) => {
                self.state = RunState::Running;
                Ok(())
            },
            Err(e) => Err(LifecycleError::Fc(e)),
        }
    }

    /// Shuts the VM down.
    pub fn shutdown(&mut self) -> (r: Result<(), LifecycleError>)
        ensures
            carried_out(*old(self), *final(self), FcOp::Shutdown, r),
    {
        match self.state {
            RunState::Running => {},
            RunState::Paused => {},
            from => {
                return Err(LifecycleError::IllegalTransition { from, op: "shutdown" });
            },
        }
        match self.fc.shutdown() {
            Ok(()) => {
                self.state = RunState::Stopped;
                Ok(())
            },
            Err(e) => Err(LifecycleError::Fc(e)),
        }
    }
}

/// Firecracker is never asked for what is not legal, and nothing but a success of its changes the
/// VM's state.
pub proof fn law_state_follows_firecracker<F: FirecrackerApi>(
    before: Vm<F>,
    after: Vm<F>,
    op: FcOp,
    r: Result<(), LifecycleError>,
)
    requires
        carried_out(before, after, op, r),
    ensures
        after.run_state() != before.run_state() ==> {
            &&& leads_to(before.run_state(), op) == Some(after.run_state())
            &&& after.fc_log().last().0 == op
            &&& after.fc_log().last().1 is Ok
        },
        after.fc_log().len() > before.fc_log().len() ==> leads_to(before.run_state(), op) is Some,
{
}

/// A VM that was shut down stays so.
pub proof fn law_stopped_is_final(op: FcOp)
    ensures
        leads_to(RunState::Stopped, op) is None,
{
}

/// A VM is booted once and first, pausing and resuming undo one another, and a VM that was shut down
/// is shut down for good. Every operation that is carried out changes the state.
pub proof fn law_lifecycle(from: RunState, op: FcOp)
    ensures
        op is Boot ==> (leads_to(from, op) is Some <==> from is Created),
        from is Created && leads_to(from, op) is Some ==> op is Boot,
        leads_to(from, FcOp::Pause) matches Some(next) ==> leads_to(next, FcOp::Resume) == Some(from),
        leads_to(from, FcOp::Resume) matches Some(next) ==> leads_to(next, FcOp::Pause) == Some(from),
        leads_to(from, FcOp::Shutdown) matches Some(next) ==> leads_to(next, op) is None,
        leads_to(from, op) != Some(from),
        leads_to(RunState::Created, FcOp::Boot) matches Some(up) && leads_to(up, FcOp::Pause) is Some
            && leads_to(up, FcOp::Shutdown) is Some,
        leads_to(from, FcOp::Pause) matches Some(next) ==> leads_to(next, FcOp::Shutdown) is Some,
{
}

/// An operation that is allowed is asked of Firecracker once, and where Firecracker does it the VM is
/// in the next state; where it does not, the VM stays as it is and its error is told. One that is not
/// allowed is not asked for.
pub proof fn law_operations_are_carried_out<F: FirecrackerApi>(
    before: Vm<F>,
    after: Vm<F>,
    op: FcOp,
    r: Result<(), LifecycleError>,
)
    requires
        carried_out(before, after, op, r),
    ensures
        after.ident() == before.ident(),
        r is Ok ==> leads_to(before.run_state(), op) == Some(after.run_state()),
        r is Err ==> after.run_state() == before.run_state(),
        leads_to(before.run_state(), op) is Some <==> after.fc_log().len() == before.fc_log().len()
            + 1,
        leads_to(before.run_state(), op) is Some ==> (r is Ok <==> after.fc_log().last().1 is Ok),
        leads_to(before.run_state(), op) is None <==> (r matches Err(
            LifecycleError::IllegalTransition { .. },
        )),
        r matches Err(LifecycleError::IllegalTransition { from, op: name }) ==> from
            == before.run_state() && name@ == op.name() && after.fc_log() == before.fc_log(),
{
}

} // verus!
