//! A scripted, recording channel without a transport.

use std::collections::VecDeque;

use vstd::prelude::*;

use crate::guestd::channel::{ChannelError, ChannelEvent, GuestChannel};
use crate::proto::vsock::{GuestToHost, HostToGuest};

verus! {

/// A channel whose inbound messages are scripted and whose outbound ones are kept. Every send
/// succeeds; once the script runs out the peer counts as hung up.
pub struct PseudoChannel {
    inbox: VecDeque<HostToGuest>,
    sent: Vec<GuestToHost>,
    log: Ghost<Seq<ChannelEvent>>,
}

/// The messages sent in a log, in order.
pub open spec fn messages_sent(log: Seq<ChannelEvent>) -> Seq<GuestToHost>
    decreases log.len(),
{
    if log.len() == 0 {
        Seq::empty()
    } else {
        match log.last() {
            ChannelEvent::Sent { msg, .. } => messages_sent(log.drop_last()).push(msg),
            ChannelEvent::Received { .. } => messages_sent(log.drop_last()),
        }
    }
}

impl PseudoChannel {
    #[verifier::type_invariant]
    spec fn wf(self) -> bool {
        self.sent@ == messages_sent(self.log@)
    }

    /// The scripted messages still to come, the next one first.
    pub closed spec fn script(&self) -> Seq<HostToGuest> {
        self.inbox@
    }

    /// A channel with an empty script and nothing sent.
    pub fn new() -> (chan: PseudoChannel)
        ensures
            chan.script() == Seq::<HostToGuest>::empty(),
            chan.log() == Seq::<ChannelEvent>::empty(),
    {
        PseudoChannel { inbox: VecDeque::new(), sent: Vec::new(), log: Ghost(Seq::empty()) }
    }

    /// Scripts one more message, after those already scripted.
    pub fn push_inbound(&mut self, msg: HostToGuest)
        ensures
            final(self).script() == old(self).script().push(msg),
            final(self).log() == old(self).log(),
    {
        let mut whole = PseudoChannel::new();
        core::mem::swap(&mut whole, self);
        proof {
            use_type_invariant(&whole);
        }
        let PseudoChannel { mut inbox, sent, log } = whole;
        inbox.push_back(msg);
        *self = PseudoChannel { inbox, sent, log };
    }

    /// The messages sent so far, in order.
    pub fn sent(&self) -> (out: &Vec<GuestToHost>)
        ensures
            out@ == messages_sent(self.log()),
    {
        proof {
            use_type_invariant(self);
        }
        &self.sent
    }
}

impl GuestChannel for PseudoChannel {
    closed spec fn log(&self) -> Seq<ChannelEvent> {
        self.log@
    }

    open spec fn infallible() -> bool {
        true
    }

    fn send(&mut self, msg: GuestToHost) -> (outcome: Result<(), ChannelError>)
        ensures
            outcome is Ok,
            final(self).script() == old(self).script(),
    {
        let mut whole = PseudoChannel::new();
        core::mem::swap(&mut whole, self);
        proof {
            use_type_invariant(&whole);
        }
        let PseudoChannel { inbox, mut sent, log } = whole;
        let outcome: Result<(), ChannelError> = Ok(());
        let ghost extended = log@.push(ChannelEvent::Sent { msg, outcome });
        proof {
            assert(extended.drop_last() =~= log@);
        }
        sent.push(msg);
        *self = PseudoChannel { inbox, sent, log: Ghost(extended) };
        outcome
    }

    fn recv(&mut self) -> (outcome: Result<HostToGuest, ChannelError>)
        ensures
            match outcome {
                Ok(msg) => old(self).script().len() > 0 && msg == old(self).script()[0]
                    && final(self).script() == old(self).script().skip(1),
                Err(e) => old(self).script().len() == 0 && e == ChannelError::Closed
                    && final(self).script() == old(self).script(),
            },
    {
        let mut whole = PseudoChannel::new();
        core::mem::swap(&mut whole, self);
        proof {
            use_type_invariant(&whole);
        }
        let PseudoChannel { mut inbox, sent, log } = whole;
        let outcome: Result<HostToGuest, ChannelError> = match inbox.pop_front() {
            Some(msg) => Ok(msg),
            None => Err(ChannelError::Closed),
        };
        let ghost extended = log@.push(ChannelEvent::Received { reply: outcome });
        proof {
            assert(extended.drop_last() =~= log@);
        }
        *self = PseudoChannel { inbox, sent, log: Ghost(extended) };
        outcome
    }
}

/// What was sent is told in the order in which it was sent, and nothing else is.
pub proof fn law_messages_come_in_order(a: Seq<ChannelEvent>, b: Seq<ChannelEvent>)
    ensures
        messages_sent(a + b) == messages_sent(a) + messages_sent(b),
        messages_sent(a).len() <= a.len(),
        (forall|i: int| 0 <= i < a.len() ==> #[trigger] a[i] is Sent) ==> messages_sent(a).len()
            == a.len(),
    decreases a.len() + b.len(),
{
    if b.len() == 0 {
        assert(a + b =~= a);
        assert(messages_sent(a) + messages_sent(b) =~= messages_sent(a));
        if a.len() > 0 {
            let init = a.drop_last();
            law_messages_come_in_order(init, b);
            if forall|i: int| 0 <= i < a.len() ==> #[trigger] a[i] is Sent {
                assert forall|i: int| 0 <= i < init.len() implies #[trigger] init[i] is Sent by {
                    assert(init[i] == a[i]);
                }
                assert(a[a.len() - 1] is Sent);
            }
        }
    } else {
        law_messages_come_in_order(a, b.drop_last());
        assert((a + b).drop_last() =~= a + b.drop_last());
        assert((a + b).last() == b.last());
        assert(messages_sent(a + b) =~= messages_sent(a) + messages_sent(b));
    }
}

} // verus!
