//! The host's side of the control link to a guest.
//!
//! A host reaches a live guest through Firecracker's vsock socket, completes the boot handshake, and
//! drains the guest to an idle gap before a snapshot is taken. What is read from the link and what
//! is written to it is decided here.

use std::collections::BTreeMap;

use vstd::prelude::*;

use crate::proto::vsock::{GuestToHost, HostToGuest};
use crate::text;
use crate::text::{begins_with, decimal_of, trimmed, trimmed_end};
use crate::time::Duration;

verus! {

/// What a guest answered to a drain.
#[derive(Clone, Copy, Debug, PartialEq, Eq, Structural)]
pub enum DrainState {
    /// New turns are gated and none is running: a snapshot is safe.
    Quiescent,
    /// A turn is running. It wins.
    Busy,
}

/// Why the link failed.
#[derive(Debug, PartialEq, Eq)]
pub enum LinkError {
    /// The connection was refused, and this says why.
    Refused(String),
    /// The guest has closed the connection.
    Closed,
    /// The guest's first message was not its greeting.
    NoHello(GuestToHost),
}

/// The line that asks Firecracker to connect to a port of the guest.
pub fn connect_line(port: u32) -> (line: String)
    ensures
        line@ == "CONNECT "@ + text::decimal(port as nat) + "\n"@,
{
    let mut line = "CONNECT ".to_owned();
    line.append(&decimal_of(port as u64));
    line.append("\n");
    line
}

/// Whether the guest has accepted the connection, by Firecracker's reply.
pub fn connected(port: u32, reply: &str) -> (r: Result<(), LinkError>)
    ensures
        match r {
            Ok(_) => text::starts_with(reply@, "OK"@),
            Err(e) => !text::starts_with(reply@, "OK"@) && (e matches LinkError::Refused(why)
                && why@ == "vsock CONNECT to port "@ + text::decimal(port as nat) + " failed: "@
                + text::trim(reply@)),
        },
{
    if begins_with(reply, "OK") {
        return Ok(());
    }
    let mut why = "vsock CONNECT to port ".to_owned();
    why.append(&decimal_of(port as u64));
    why.append(" failed: ");
    why.append(&trimmed(reply));
    Err(LinkError::Refused(why))
}

/// The JSON of the guest's next message, from a line of which `read` bytes were read.
pub fn message_text(read: usize, line: &str) -> (r: Result<String, LinkError>)
    ensures
        match r {
            Ok(json) => read > 0 && json@ == text::trim_end(line@),
            Err(e) => read == 0 && e is Closed,
        },
{
    if read == 0 {
        return Err(LinkError::Closed);
    }
    Ok(trimmed_end(line))
}

/// The boot handshake: what the host answers to the guest's first message, which must be its
/// greeting.
pub fn handshake(first: GuestToHost, env: BTreeMap<String, String>) -> (r: Result<
    HostToGuest,
    LinkError,
>)
    ensures
        match r {
            Ok(reply) => first is Hello && reply == (HostToGuest::Secrets { env }),
            Err(e) => !(first is Hello) && e == LinkError::NoHello(first),
        },
{
    match first {
        GuestToHost::Hello { .. } => Ok(HostToGuest::Secrets { env }),
        other => Err(LinkError::NoHello(other)),
    }
}

/// The message that asks a guest to drain.
pub fn drain_request(deadline: Duration) -> (msg: HostToGuest)
    ensures
        msg == (HostToGuest::DrainRequest { deadline }),
{
    HostToGuest::DrainRequest { deadline }
}

/// What a message says of a drain: only an acknowledgement says anything.
pub fn drain_answer(msg: &GuestToHost) -> (state: Option<DrainState>)
    ensures
        state == match *msg {
            GuestToHost::DrainAck { in_flight: None } => Some(DrainState::Quiescent),
            GuestToHost::DrainAck { in_flight: Some(_) } => Some(DrainState::Busy),
            _ => None,
        },
{
    match msg {
        GuestToHost::DrainAck { in_flight } => match in_flight {
            None => Some(DrainState::Quiescent),
            Some(_) => Some(DrainState::Busy),
        },
        _ => None,
    }
}

/// How long the host waits between two attempts to connect, in milliseconds.
pub const RETRY_MS: u64 = 200;

/// What to do next to get connected.
#[derive(Debug, PartialEq, Eq)]
pub enum DialStep {
    /// Try to connect.
    Attempt,
    /// Wait this long.
    Wait(Duration),
    /// Give up, for this reason.
    GiveUp(String),
}

/// Connects to a guest that may still be booting: attempts until one succeeds or time is up.
#[derive(Debug, PartialEq, Eq)]
pub struct Dial {
    deadline: Duration,
    last: String,
}

impl Dial {
    /// When time is up.
    pub closed spec fn until(&self) -> nat {
        self.deadline@
    }

    /// Why the last attempt failed.
    pub closed spec fn reason(&self) -> Seq<char> {
        self.last@
    }

    /// What is done at `now`, between two attempts: another, or none once time is up.
    pub open spec fn decides(&self, now: Duration, step: DialStep) -> bool {
        if now@ < self.until() {
            step is Attempt
        } else {
            step matches DialStep::GiveUp(why) && why@ == self.reason()
        }
    }

    /// Connects until `deadline`.
    pub fn new(deadline: Duration) -> (dial: Dial)
        ensures
            dial.until() == deadline@,
            dial.reason() == "no attempt"@,
    {
        Dial { deadline, last: "no attempt".to_owned() }
    }

    /// An attempt failed: the reason is kept, and the host waits.
    pub fn failed(&mut self, why: String) -> (step: DialStep)
        ensures
            final(self).until() == old(self).until(),
            final(self).reason() == why@,
            step matches DialStep::Wait(span) && span@ == RETRY_MS * 1_000_000,
    {
        self.last = why;
        DialStep::Wait(Duration::from_millis(RETRY_MS))
    }

    /// What is done at `now`, before the first attempt and after each wait.
    pub fn next(&self, now: Duration) -> (step: DialStep)
        ensures
            self.decides(now, step),
    {
        if now.shorter_than(&self.deadline) {
            DialStep::Attempt
        } else {
            DialStep::GiveUp(self.last.as_str().to_owned())
        }
    }
}

/// A dial is kept up until its deadline and given up from then on, for the reason that the last
/// attempt failed.
pub proof fn law_dial_lasts_until_its_deadline(dial: &Dial, now: Duration, step: DialStep)
    requires
        dial.decides(now, step),
    ensures
        step is Attempt <==> now@ < dial.until(),
        step is GiveUp <==> dial.until() <= now@,
        step matches DialStep::GiveUp(why) ==> why@ == dial.reason(),
{
}

} // verus!
