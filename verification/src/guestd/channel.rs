//! The channel between the guest supervisor and its host.

use vstd::prelude::*;

use crate::proto::vsock::{GuestToHost, HostToGuest};

verus! {

/// Why a message did not cross the channel.
#[derive(Debug, PartialEq, Eq)]
pub enum ChannelError {
    /// The peer closed the connection.
    Closed,
    /// An I/O error of the underlying transport.
    Io(String),
    /// The peer sent something that is no message.
    Malformed(String),
}

/// One use of a channel and how it went.
pub enum ChannelEvent {
    /// A message was handed to the channel.
    Sent {
        /// The message.
        msg: GuestToHost,
        /// Whether the channel took it.
        outcome: Result<(), ChannelError>,
    },
    /// A message was asked of the channel.
    Received {
        /// What came.
        reply: Result<HostToGuest, ChannelError>,
    },
}

impl ChannelEvent {
    /// How the sending of a message went.
    pub open spec fn send_outcome(self) -> Result<(), ChannelError> {
        match self {
            ChannelEvent::Sent { outcome, .. } => outcome,
            ChannelEvent::Received { .. } => Ok(()),
        }
    }

    /// What the asking for a message brought.
    pub open spec fn receive_outcome(self) -> Result<HostToGuest, ChannelError> {
        match self {
            ChannelEvent::Sent { .. } => Err(ChannelError::Closed),
            ChannelEvent::Received { reply } => reply,
        }
    }
}

/// The channel the supervisor talks to its host over.
pub trait GuestChannel: Sized {
    /// Every use of the channel so far, oldest first.
    ///
    /// This is ghost state. An implementation that is not verified cannot define it; the clauses
    /// below then say what it is relied on to do.
    closed spec fn log(&self) -> Seq<ChannelEvent> {
        arbitrary()
    }

    /// Whether every send on a channel of this type succeeds. That is promised of none unless it is
    /// said.
    open spec fn infallible() -> bool {
        false
    }

    /// Sends one message to the host.
    fn send(&mut self, msg: GuestToHost) -> (outcome: Result<(), ChannelError>)
        ensures
            final(self).log() == old(self).log().push(ChannelEvent::Sent { msg, outcome }),
            Self::infallible() ==> outcome is Ok,
    ;

    /// Takes the next message from the host.
    fn recv(&mut self) -> (outcome: Result<HostToGuest, ChannelError>)
        ensures
            final(self).log() == old(self).log().push(ChannelEvent::Received { reply: outcome }),
    ;
}

/// Whether `after` is `before` with one more send, of `msg`.
pub open spec fn sent_one<C: GuestChannel>(
    before: Seq<ChannelEvent>,
    after: Seq<ChannelEvent>,
    msg: GuestToHost,
) -> bool {
    &&& after == before.push(ChannelEvent::Sent { msg, outcome: after.last().send_outcome() })
    &&& C::infallible() ==> after.last().send_outcome() is Ok
}

} // verus!
