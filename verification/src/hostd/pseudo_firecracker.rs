//! A recording stand-in for Firecracker.

use vstd::prelude::*;

use crate::hostd::fc::FailKind;
use crate::hostd::firecracker::{
    ApiOp, BootSource, Drive, FirecrackerApi, FirecrackerError, MachineConfig, NetworkConfig,
    SnapshotSource, SnapshotTarget, VsockConfig,
};
use crate::text;
use crate::text::same_text;

verus! {

/// A stand-in for Firecracker that keeps the names of the operations it was asked for and can be
/// primed to fail one of them.
pub struct PseudoFirecracker {
    calls: Vec<&'static str>,
    fail_next: Option<(&'static str, FailKind)>,
    log: Ghost<Seq<(ApiOp, Result<(), FirecrackerError>)>>,
}

impl PseudoFirecracker {
    /// The names of the operations asked for, in order.
    pub closed spec fn called(&self) -> Seq<Seq<char>> {
        text::literal_views(self.calls@)
    }

    /// The operation that fails next, and how.
    pub closed spec fn primed(&self) -> Option<(Seq<char>, FailKind)> {
        match self.fail_next {
            Some((op, kind)) => Some((op@, kind)),
            None => None,
        }
    }

    /// A stand-in whose every operation succeeds.
    pub fn new() -> (fc: PseudoFirecracker)
        ensures
            fc.called() == Seq::<Seq<char>>::empty(),
            fc.primed() is None,
            fc.log() == Seq::<(ApiOp, Result<(), FirecrackerError>)>::empty(),
    {
        let fc = PseudoFirecracker { calls: Vec::new(), fail_next: None, log: Ghost(Seq::empty()) };
        proof {
            assert(fc.called() =~= Seq::<Seq<char>>::empty());
        }
        fc
    }

    /// Makes the next call of `op` be refused.
    pub fn reject_next(&mut self, op: &'static str)
        ensures
            final(self).primed() == Some((op@, FailKind::Rejected)),
            final(self).called() == old(self).called(),
            final(self).log() == old(self).log(),
    {
        self.fail_next = Some((op, FailKind::Rejected));
    }

    /// Makes the next call of `op` not reach Firecracker.
    pub fn unreachable_next(&mut self, op: &'static str)
        ensures
            final(self).primed() == Some((op@, FailKind::Unreachable)),
            final(self).called() == old(self).called(),
            final(self).log() == old(self).log(),
    {
        self.fail_next = Some((op, FailKind::Unreachable));
    }

    /// The names of the operations asked for, in order.
    pub fn calls(&self) -> (calls: &Vec<&'static str>)
        ensures
            text::literal_views(calls@) == self.called(),
    {
        &self.calls
    }
}

/// What a call of `op` does to the stand-in and how it ends.
pub open spec fn pseudo_recorded(
    before: PseudoFirecracker,
    after: PseudoFirecracker,
    op: ApiOp,
    r: Result<(), FirecrackerError>,
) -> bool {
    &&& after.called() == before.called().push(op.name())
    &&& match before.primed() {
        Some((failing, kind)) => if failing == op.name() {
            &&& after.primed() is None
            &&& match kind {
                FailKind::Rejected => r matches Err(FirecrackerError::Rejected { op: o, detail })
                    && o@ == op.name() && detail@ == "injected by PseudoFirecracker"@,
                FailKind::Unreachable => r matches Err(
                    FirecrackerError::Unreachable { op: o, detail },
                ) && o@ == op.name() && detail@ == "injected by PseudoFirecracker"@,
            }
        } else {
            after.primed() == before.primed() && r == Ok::<(), FirecrackerError>(())
        },
        None => after.primed() is None && r == Ok::<(), FirecrackerError>(()),
    }
}

/// A primed operation fails once: others succeed meanwhile and leave it primed, its next call fails
/// and is listed all the same, and the one after that succeeds.
pub proof fn law_primed_operation_fails_once(
    start: PseudoFirecracker,
    meanwhile: PseudoFirecracker,
    failed: PseudoFirecracker,
    end: PseudoFirecracker,
    other: ApiOp,
    op: ApiOp,
    kind: FailKind,
    results: (
        Result<(), FirecrackerError>,
        Result<(), FirecrackerError>,
        Result<(), FirecrackerError>,
    ),
)
    requires
        start.primed() == Some((op.name(), kind)),
        other.name() != op.name(),
        pseudo_recorded(start, meanwhile, other, results.0),
        pseudo_recorded(meanwhile, failed, op, results.1),
        pseudo_recorded(failed, end, op, results.2),
    ensures
        results.0 == Ok::<(), FirecrackerError>(()),
        meanwhile.primed() == start.primed(),
        match kind {
            FailKind::Rejected => results.1 matches Err(FirecrackerError::Rejected { op: o, .. })
                && o@ == op.name(),
            FailKind::Unreachable => results.1 matches Err(
                FirecrackerError::Unreachable { op: o, .. },
            ) && o@ == op.name(),
        },
        failed.called() == start.called().push(other.name()).push(op.name()),
        results.2 == Ok::<(), FirecrackerError>(()),
        end.called() == failed.called().push(op.name()),
{
}

impl FirecrackerApi for PseudoFirecracker {
    closed spec fn log(&self) -> Seq<(ApiOp, Result<(), FirecrackerError>)> {
        self.log@
    }

    fn perform(&mut self, op: ApiOp) -> (r: Result<(), FirecrackerError>)
        ensures
            pseudo_recorded(*old(self), *final(self), op, r),
    {
        let name: &'static str = op.as_str();
        let ghost before = self.called();
        self.calls.push(name);
        proof {
            assert(self.called() =~= before.push(name@));
        }
        let failing: Option<FailKind> = match self.fail_next {
            Some((failed_op, kind)) => if same_text(failed_op, name) {
                Some(kind)
            } else {
                None
            },
            None => None,
        };
        let r: Result<(), FirecrackerError> = match failing {
            Some(kind) => {
                self.fail_next = None;
                let detail = "injected by PseudoFirecracker".to_owned();
                match kind {
                    FailKind::Rejected => Err(FirecrackerError::Rejected { op: name, detail }),
                    FailKind::Unreachable => Err(
                        FirecrackerError::Unreachable { op: name, detail },
                    ),
                }
            },
            None => Ok(()),
        };
        self.log = Ghost(self.log@.push((op, r)));
        r
    }

    fn configure_machine(&mut self, cfg: MachineConfig) -> (r: Result<(), FirecrackerError>)
        ensures
            pseudo_recorded(*old(self), *final(self), ApiOp::ConfigureMachine(cfg), r),
    {
        self.perform(ApiOp::ConfigureMachine(cfg))
    }

    fn configure_boot_source(&mut self, src: BootSource) -> (r: Result<(), FirecrackerError>)
        ensures
            pseudo_recorded(*old(self), *final(self), ApiOp::ConfigureBootSource(src), r),
    {
        self.perform(ApiOp::ConfigureBootSource(src))
    }

    fn configure_drive(&mut self, drive: Drive) -> (r: Result<(), FirecrackerError>)
        ensures
            pseudo_recorded(*old(self), *final(self), ApiOp::ConfigureDrive(drive), r),
    {
        self.perform(ApiOp::ConfigureDrive(drive))
    }

    fn configure_vsock(&mut self, cfg: VsockConfig) -> (r: Result<(), FirecrackerError>)
        ensures
            pseudo_recorded(*old(self), *final(self), ApiOp::ConfigureVsock(cfg), r),
    {
        self.perform(ApiOp::ConfigureVsock(cfg))
    }

    fn configure_network(&mut self, net: NetworkConfig) -> (r: Result<(), FirecrackerError>)
        ensures
            pseudo_recorded(*old(self), *final(self), ApiOp::ConfigureNetwork(net), r),
    {
        self.perform(ApiOp::ConfigureNetwork(net))
    }

    fn boot(&mut self) -> (r: Result<(), FirecrackerError>)
        ensures
            pseudo_recorded(*old(self), *final(self), ApiOp::Boot, r),
    {
        self.perform(ApiOp::Boot)
    }

    fn pause(&mut self) -> (r: Result<(), FirecrackerError>)
        ensures
            pseudo_recorded(*old(self), *final(self), ApiOp::Pause, r),
    {
        self.perform(ApiOp::Pause)
    }

    fn resume(&mut self) -> (r: Result<(), FirecrackerError>)
        ensures
            pseudo_recorded(*old(self), *final(self), ApiOp::Resume, r),
    {
        self.perform(ApiOp::Resume)
    }

    fn shutdown(&mut self) -> (r: Result<(), FirecrackerError>)
        ensures
            pseudo_recorded(*old(self), *final(self), ApiOp::Shutdown, r),
    {
        self.perform(ApiOp::Shutdown)
    }

    fn create_snapshot(&mut self, target: SnapshotTarget) -> (r: Result<(), FirecrackerError>)
        ensures
            pseudo_recorded(*old(self), *final(self), ApiOp::CreateSnapshot(target), r),
    {
        self.perform(ApiOp::CreateSnapshot(target))
    }

    fn load_snapshot(&mut self, source: SnapshotSource) -> (r: Result<(), FirecrackerError>)
        ensures
            pseudo_recorded(*old(self), *final(self), ApiOp::LoadSnapshot(source), r),
    {
        self.perform(ApiOp::LoadSnapshot(source))
    }
}

} // verus!
