//! The control of one VM's Firecracker process: the operations of its lifecycle.

use vstd::prelude::*;

use crate::hostd::api;
use crate::hostd::api::{fault_message, ApiMethod, ApiRequest, NO_CONTENT};
use crate::hostd::firecracker::ApiOp;
use crate::text;
use crate::text::same_text;

verus! {

/// Why an operation failed.
#[derive(Debug, PartialEq, Eq)]
pub enum FcError {
    /// Firecracker refused it.
    Rejected {
        /// The operation.
        op: &'static str,
        /// Firecracker's reason.
        detail: String,
    },
    /// Firecracker could not be reached.
    Unreachable {
        /// The operation.
        op: &'static str,
        /// What went wrong.
        detail: String,
    },
}

/// An operation of the lifecycle.
#[derive(Clone, Copy, Debug, PartialEq, Eq, Structural)]
pub enum FcOp {
    /// Start the guest.
    Boot,
    /// Stop the vCPUs.
    Pause,
    /// Let the vCPUs run again.
    Resume,
    /// Stop the VM.
    Shutdown,
}

impl FcOp {
    /// The operation's name.
    pub open spec fn name(self) -> Seq<char> {
        match self {
            FcOp::Boot => "boot"@,
            FcOp::Pause => "pause"@,
            FcOp::Resume => "resume"@,
            FcOp::Shutdown => "shutdown"@,
        }
    }

    /// The operation's name.
    pub fn as_str(self) -> (name: &'static str)
        ensures
            name@ == self.name(),
    {
        match self {
            FcOp::Boot => "boot",
            FcOp::Pause => "pause",
            FcOp::Resume => "resume",
            FcOp::Shutdown => "shutdown",
        }
    }

    /// The request that asks for the operation.
    pub open spec fn asks(self) -> (ApiMethod, Seq<char>, Seq<char>) {
        match self {
            FcOp::Boot => (
                ApiMethod::Put,
                "/actions"@,
                "{\"action_type\":\"InstanceStart\"}"@,
            ),
            FcOp::Pause => (ApiMethod::Patch, "/vm"@, "{\"state\":\"Paused\"}"@),
            FcOp::Resume => (ApiMethod::Patch, "/vm"@, "{\"state\":\"Resumed\"}"@),
            FcOp::Shutdown => (
                ApiMethod::Put,
                "/actions"@,
                "{\"action_type\":\"SendCtrlAltDel\"}"@,
            ),
        }
    }

    /// The request that asks for the operation.
    pub fn request(self) -> (r: ApiRequest)
        ensures
            r.is(self.asks().0, self.asks().1, self.asks().2),
    {
        let (method, path, body) = match self {
            FcOp::Boot => (
                ApiMethod::Put,
                "/actions",
                "{\"action_type\":\"InstanceStart\"}",
            ),
            FcOp::Pause => (ApiMethod::Patch, "/vm", "{\"state\":\"Paused\"}"),
            FcOp::Resume => (ApiMethod::Patch, "/vm", "{\"state\":\"Resumed\"}"),
            FcOp::Shutdown => (
                ApiMethod::Put,
                "/actions",
                "{\"action_type\":\"SendCtrlAltDel\"}",
            ),
        };
        ApiRequest { method, path: path.to_owned(), body: body.to_owned() }
    }
}

/// What drives one VM's Firecracker process.
pub trait FirecrackerApi: Sized {
    /// Every operation so far and how it went, oldest first.
    ///
    /// This is ghost state. An implementation that is not verified cannot define it; the clauses
    /// below then say what it is relied on to do.
    closed spec fn log(&self) -> Seq<(FcOp, Result<(), FcError>)> {
        arbitrary()
    }

    /// Starts the guest.
    fn boot(&mut self) -> (r: Result<(), FcError>)
        ensures
            final(self).log() == old(self).log().push((FcOp::Boot, r)),
    ;

    /// Stops the vCPUs.
    fn pause(&mut self) -> (r: Result<(), FcError>)
        ensures
            final(self).log() == old(self).log().push((FcOp::Pause, r)),
    ;

    /// Lets the vCPUs run again.
    fn resume(&mut self) -> (r: Result<(), FcError>)
        ensures
            final(self).log() == old(self).log().push((FcOp::Resume, r)),
    ;

    /// Stops the VM.
    fn shutdown(&mut self) -> (r: Result<(), FcError>)
        ensures
            final(self).log() == old(self).log().push((FcOp::Shutdown, r)),
    ;
}

// ---------------------------------------------------------------------------
// A client of the API socket
// ---------------------------------------------------------------------------

/// The client of one VM's API socket: what it sends, and what it makes of an answer.
#[derive(Clone, Debug, PartialEq, Eq)]
pub struct RealFc {
    socket: String,
}

impl RealFc {
    /// The socket's path.
    pub closed spec fn path(&self) -> Seq<char> {
        self.socket@
    }

    /// A client of the API socket at `socket`.
    pub fn new(socket: &str) -> (fc: RealFc)
        ensures
            fc.path() == socket@,
    {
        RealFc { socket: socket.to_owned() }
    }

    /// The socket's path.
    pub fn socket(&self) -> (path: &str)
        ensures
            path@ == self.path(),
    {
        self.socket.as_str()
    }

    /// What an answer means for an operation: success where there is no content, and else a
    /// refusal with Firecracker's reason.
    pub fn outcome(op: FcOp, status: u16, body: &[u8]) -> (r: Result<(), FcError>)
        ensures
            match r {
                Ok(_) => status == NO_CONTENT,
                Err(e) => {
                    &&& status != NO_CONTENT
                    &&& e matches FcError::Rejected { op: o, detail } && o@ == op.name() && detail@
                        == api::fault_text(
                        api::json_member_text(body@, "fault_message"@),
                        api::lossy_utf8(body@),
                        body@.len() == 0,
                        status,
                    )
                },
            },
    {
        if status == NO_CONTENT {
            return Ok(());
        }
        Err(FcError::Rejected { op: op.as_str(), detail: fault_message(body, status) })
    }

    /// What the failure to reach Firecracker means for an operation.
    pub fn unreachable(op: FcOp, detail: String) -> (e: FcError)
        ensures
            e matches FcError::Unreachable { op: o, detail: d } && o@ == op.name() && d@ == detail@,
    {
        FcError::Unreachable { op: op.as_str(), detail }
    }
}

// ---------------------------------------------------------------------------
// A stand-in
// ---------------------------------------------------------------------------

/// How a primed operation fails.
#[derive(Clone, Copy, Debug, PartialEq, Eq, Structural)]
pub enum FailKind {
    /// Firecracker refuses it.
    Rejected,
    /// Firecracker cannot be reached.
    Unreachable,
}

/// A recording stand-in for Firecracker that can be primed to fail one operation.
pub struct FakeFc {
    calls: Vec<&'static str>,
    fail_next: Option<(&'static str, FailKind)>,
    log: Ghost<Seq<(FcOp, Result<(), FcError>)>>,
}

impl FakeFc {
    /// The names of the operations asked for, in order.
    pub closed spec fn called(&self) -> Seq<Seq<char>> {
        text::literal_views(self.calls@)
    }

    /// The operation that fails next, and how.
    pub closed spec fn primed(&self) -> Option<(Seq<char>, FailKind)> {
        match self.fail_next {
            Some((op, kind)) => Some((op@, kind)),
            None => None,
        }
    }

    /// A stand-in whose every operation succeeds.
    pub fn new() -> (fc: FakeFc)
        ensures
            fc.called() == Seq::<Seq<char>>::empty(),
            fc.primed() is None,
            fc.log() == Seq::<(FcOp, Result<(), FcError>)>::empty(),
    {
        let fc = FakeFc { calls: Vec::new(), fail_next: None, log: Ghost(Seq::empty()) };
        proof {
            assert(fc.called() =~= Seq::<Seq<char>>::empty());
        }
        fc
    }

    /// Makes the next call of `op` be refused.
    pub fn reject_next(&mut self, op: &'static str)
        ensures
            final(self).primed() == Some((op@, FailKind::Rejected)),
            final(self).called() == old(self).called(),
            final(self).log() == old(self).log(),
    {
        self.fail_next = Some((op, FailKind::Rejected));
    }

    /// Makes the next call of `op` not reach Firecracker.
    pub fn unreachable_next(&mut self, op: &'static str)
        ensures
            final(self).primed() == Some((op@, FailKind::Unreachable)),
            final(self).called() == old(self).called(),
            final(self).log() == old(self).log(),
    {
        self.fail_next = Some((op, FailKind::Unreachable));
    }

    /// The names of the operations asked for, in order.
    pub fn calls(&self) -> (calls: &Vec<&'static str>)
        ensures
            text::literal_views(calls@) == self.called(),
    {
        &self.calls
    }

    /// Keeps the call and fails it where it is primed to fail, once.
    fn record(&mut self, op: FcOp) -> (r: Result<(), FcError>)
        ensures
            final(self).log() == old(self).log().push((op, r)),
            fake_recorded(*old(self), *final(self), op, r),
    {
        let name: &'static str = op.as_str();
        let ghost before = self.called();
        self.calls.push(name);
        proof {
            assert(self.called() =~= before.push(name@));
        }
        let failing: Option<FailKind> = match self.fail_next {
            Some((failed_op, kind)) => if same_text(failed_op, name) {
                Some(kind)
            } else {
                None
            },
            None => None,
        };
        let r: Result<(), FcError> = match failing {
            Some(kind) => {
                self.fail_next = None;
                let detail = "injected by FakeFc".to_owned();
                match kind {
                    FailKind::Rejected => Err(FcError::Rejected { op: name, detail }),
                    FailKind::Unreachable => Err(FcError::Unreachable { op: name, detail }),
                }
            },
            None => Ok(()),
        };
        self.log = Ghost(self.log@.push((op, r)));
        r
    }
}

/// What a call of `op` does to the stand-in and how it ends.
pub open spec fn fake_recorded(
    before: FakeFc,
    after: FakeFc,
    op: FcOp,
    r: Result<(), FcError>,
) -> bool {
    &&& after.called() == before.called().push(op.name())
    &&& match before.primed() {
        Some((failing, kind)) => if failing == op.name() {
            &&& after.primed() is None
            &&& match kind {
                FailKind::Rejected => r matches Err(FcError::Rejected { op: o, detail }) && o@
                    == op.name() && detail@ == "injected by FakeFc"@,
                FailKind::Unreachable => r matches Err(FcError::Unreachable { op: o, detail }) && o@
                    == op.name() && detail@ == "injected by FakeFc"@,
            }
        } else {
            after.primed() == before.primed() && r == Ok::<(), FcError>(())
        },
        None => after.primed() is None && r == Ok::<(), FcError>(()),
    }
}

impl FirecrackerApi for FakeFc {
    closed spec fn log(&self) -> Seq<(FcOp, Result<(), FcError>)> {
        self.log@
    }

    fn boot(&mut self) -> (r: Result<(), FcError>)
        ensures
            fake_recorded(*old(self), *final(self), FcOp::Boot, r),
    {
        self.record(FcOp::Boot)
    }

    fn pause(&mut self) -> (r: Result<(), FcError>)
        ensures
            fake_recorded(*old(self), *final(self), FcOp::Pause, r),
    {
        self.record(FcOp::Pause)
    }

    fn resume(&mut self) -> (r: Result<(), FcError>)
        ensures
            fake_recorded(*old(self), *final(self), FcOp::Resume, r),
    {
        self.record(FcOp::Resume)
    }

    fn shutdown(&mut self) -> (r: Result<(), FcError>)
        ensures
            fake_recorded(*old(self), *final(self), FcOp::Shutdown, r),
    {
        self.record(FcOp::Shutdown)
    }
}

/// What a lifecycle operation asks for is what the full client asks for by the operation of the same
/// name.
pub proof fn law_both_clients_ask_alike(op: FcOp)
    ensures
        ({
            let full = match op {
                FcOp::Boot => ApiOp::Boot,
                FcOp::Pause => ApiOp::Pause,
                FcOp::Resume => ApiOp::Resume,
                FcOp::Shutdown => ApiOp::Shutdown,
            };
            &&& op.asks() == (full.method(), full.path(), full.body())
            &&& op.name() == full.name()
        }),
{
}

/// A stand-in that was told to fail an operation fails the next one of that name, in the way that it
/// was told, and then no more; every call is written down.
pub proof fn law_primed_failure_comes_once(
    start: FakeFc,
    failed: FakeFc,
    end: FakeFc,
    op: FcOp,
    kind: FailKind,
    results: (Result<(), FcError>, Result<(), FcError>),
)
    requires
        start.primed() == Some((op.name(), kind)),
        fake_recorded(start, failed, op, results.0),
        fake_recorded(failed, end, op, results.1),
    ensures
        match kind {
            FailKind::Rejected => results.0 matches Err(FcError::Rejected { op: o, .. }) && o@
                == op.name(),
            FailKind::Unreachable => results.0 matches Err(FcError::Unreachable { op: o, .. }) && o@
                == op.name(),
        },
        results.1 is Ok,
        end.called() == start.called().push(op.name()).push(op.name()),
{
}

} // verus!
