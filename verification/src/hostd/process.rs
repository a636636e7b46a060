//! The wait for a Firecracker process to come up.

use vstd::prelude::*;

use crate::time::Duration;

verus! {

/// How long the wait lasts between two looks, in milliseconds.
pub const LOOK_MS: u64 = 50;

/// The arguments that Firecracker is started with.
pub fn launch_args(api_sock: &str) -> (args: (String, String))
    ensures
        args.0@ == "--api-sock"@,
        args.1@ == api_sock@,
{
    ("--api-sock".to_owned(), api_sock.to_owned())
}

/// What a look at a process that is coming up found.
#[derive(Debug, PartialEq, Eq)]
pub enum SocketWait {
    /// The API socket is there.
    Ready,
    /// The process has ended, and this says how.
    Exited(String),
    /// Time is up.
    TimedOut,
    /// Look again after this long.
    Again(Duration),
}

/// Whether `found` is what a look at `now` makes of it: whether the socket is there comes first, then
/// whether the process has ended, then the deadline.
pub open spec fn seen(
    there: bool,
    exited: Option<String>,
    now: nat,
    deadline: nat,
    found: SocketWait,
) -> bool {
    match exited {
        _ if there => found is Ready,
        Some(status) => found matches SocketWait::Exited(why) && why@
            == "firecracker exited before its API socket appeared: "@ + status@,
        None => if now >= deadline {
            found is TimedOut
        } else {
            found matches SocketWait::Again(span) && span@ == LOOK_MS * 1_000_000
        },
    }
}

/// What is made of a look at `now`: `there` says whether the socket is, `exited` how the process
/// has ended, if it has.
pub fn wait_for_socket(
    there: bool,
    exited: Option<String>,
    now: Duration,
    deadline: Duration,
) -> (found: SocketWait)
    ensures
        seen(there, exited, now@, deadline@, found),
{
    if there {
        return SocketWait::Ready;
    }
    if let Some(status) = exited {
        let mut why = "firecracker exited before its API socket appeared: ".to_owned();
        why.append(&status);
        return SocketWait::Exited(why);
    }
    if !now.shorter_than(&deadline) {
        return SocketWait::TimedOut;
    }
    SocketWait::Again(Duration::from_millis(LOOK_MS))
}

/// A process counts as up as soon as its socket is there, as failed only where it is not and the
/// process has ended, and as late only where neither holds and time is up.
pub proof fn law_socket_counts_first(
    there: bool,
    exited: Option<String>,
    now: nat,
    deadline: nat,
    found: SocketWait,
)
    requires
        seen(there, exited, now, deadline, found),
    ensures
        found is Ready <==> there,
        found is Exited <==> !there && exited is Some,
        found is TimedOut <==> !there && exited is None && deadline <= now,
        found matches SocketWait::Again(span) ==> span@ > 0,
{
}

} // verus!
