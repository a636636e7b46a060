//! The supervisor inside the VM.
//!
//! It announces the VM at boot, reports each turn's start and end, and answers drains. A turn
//! that is running when a drain arrives is named in the answer and never cut short; a turn that
//! arrives after the drain gate has closed is not run but queued, and replayed once the drain gate opens
//! again, on the target host after a restore or on the same host after a cancel. The backlog is
//! part of the VM's memory, so it moves with the VM: a gated turn is deferred, never lost.

use std::collections::BTreeMap;

use vstd::prelude::*;

use crate::guestd::channel;
use crate::guestd::channel::{ChannelError, ChannelEvent, GuestChannel};
use crate::proto::ids::{GuestdVersion, Timestamp, TurnId, VmId};
use crate::proto::vsock::{GuestToHost, HostToGuest};

verus! {

/// What came of an attempt to start a turn.
#[derive(Clone, Copy, Debug, PartialEq, Eq, Structural)]
pub enum StartOutcome {
    /// The turn started under this number.
    Started(TurnId),
    /// The drain gate is closed: the turn waits in the guest until the drain gate opens again.
    Queued,
}

/// Why an operation of the supervisor failed.
#[derive(Debug, PartialEq, Eq)]
pub enum GuestError {
    /// The channel to the host failed.
    Channel(ChannelError),
    /// The host answered the boot message with something other than secrets.
    UnexpectedHandshake,
    /// A turn is already running.
    TurnInProgress {
        /// The running turn.
        in_flight: TurnId,
    },
    /// There is no turn to end.
    NoTurnInFlight,
    /// The drain gate is still closed, so nothing of the backlog may run.
    GatedReplay,
}

/// What the supervisor keeps in memory, and so takes along in a snapshot.
pub ghost struct GuestState {
    /// The number of the next turn of the guest's own.
    pub next_turn: TurnId,
    /// The running turn.
    pub in_flight: Option<TurnId>,
    /// Whether the drain gate is closed.
    pub gated: bool,
    /// How many turns wait for the drain gate to open.
    pub queued: nat,
    /// The workload's environment.
    pub secrets: BTreeMap<String, String>,
}

impl GuestState {
    /// The guest's next turn has begun.
    pub open spec fn begun(self) -> GuestState {
        GuestState {
            next_turn: TurnId::following(self.next_turn),
            in_flight: Some(self.next_turn),
            ..self
        }
    }

    /// Turn `id`, numbered by the host, is running.
    pub open spec fn running(self, id: TurnId) -> GuestState {
        GuestState { in_flight: Some(id), ..self }
    }

    /// No turn is running.
    pub open spec fn idle(self) -> GuestState {
        GuestState { in_flight: None, ..self }
    }

    /// One more turn waits.
    pub open spec fn deferred(self) -> GuestState {
        GuestState { queued: self.queued + 1, ..self }
    }

    /// One turn of the backlog has begun.
    pub open spec fn replayed(self) -> GuestState {
        GuestState { queued: (self.queued - 1) as nat, ..self }.begun()
    }

    /// The drain gate is closed.
    pub open spec fn closed(self) -> GuestState {
        GuestState { gated: true, ..self }
    }

    /// The drain gate is open.
    pub open spec fn opened(self) -> GuestState {
        GuestState { gated: false, ..self }
    }

    /// The workload's environment is `env`.
    pub open spec fn with_secrets(self, env: BTreeMap<String, String>) -> GuestState {
        GuestState { secrets: env, ..self }
    }
}

/// The supervisor of one VM.
pub struct Guest<C: GuestChannel> {
    vm_id: VmId,
    version: GuestdVersion,
    chan: C,
    secrets: BTreeMap<String, String>,
    next_turn: TurnId,
    in_flight: Option<TurnId>,
    gated: bool,
    queued: u32,
}

/// The result of an operation that sent one message and is done.
pub open spec fn after_send<T>(outcome: Result<(), ChannelError>, value: T) -> Result<
    T,
    GuestError,
> {
    match outcome {
        Ok(_) => Ok(value),
        Err(e) => Err(GuestError::Channel(e)),
    }
}

/// What running turn `turn_id` does to a guest in state `s0` whose channel has seen `w0`: the
/// guest ends up in state `s1` and the channel has seen `w1`.
pub open spec fn turn_ran<C: GuestChannel>(
    s0: GuestState,
    w0: Seq<ChannelEvent>,
    s1: GuestState,
    w1: Seq<ChannelEvent>,
    turn_id: TurnId,
    now: Timestamp,
) -> bool {
    if s0.in_flight is Some {
        s1 == s0 && w1 == w0
    } else if s0.gated {
        s1 == s0.deferred() && w1 == w0
    } else {
        let started = w1.take(w0.len() as int + 1);
        &&& channel::sent_one::<C>(w0, started, GuestToHost::TurnStarted { turn_id, ts: now })
        &&& if started.last().send_outcome() is Err {
            w1 == started && s1 == s0.running(turn_id)
        } else {
            &&& channel::sent_one::<C>(started, w1, GuestToHost::TurnEnded { turn_id, ts: now })
            &&& s1 == if w1.last().send_outcome() is Ok {
                s0.idle()
            } else {
                s0.running(turn_id)
            }
        }
    }
}

/// The result of running turn `turn_id` in state `s0`, given what the channel had seen before and
/// has seen since.
pub open spec fn run_result(
    s0: GuestState,
    w0: Seq<ChannelEvent>,
    w1: Seq<ChannelEvent>,
    turn_id: TurnId,
) -> Result<StartOutcome, GuestError> {
    match s0.in_flight {
        Some(in_flight) => Err(GuestError::TurnInProgress { in_flight }),
        None => if s0.gated {
            Ok(StartOutcome::Queued)
        } else {
            match w1[w0.len() as int].send_outcome() {
                Err(e) => Err(GuestError::Channel(e)),
                Ok(_) => after_send(w1.last().send_outcome(), StartOutcome::Started(turn_id)),
            }
        },
    }
}

/// A result without its value.
pub open spec fn unit_result<T>(r: Result<T, GuestError>) -> Result<(), GuestError> {
    match r {
        Ok(_) => Ok(()),
        Err(e) => Err(e),
    }
}

impl<C: GuestChannel> Guest<C> {
    /// What the supervisor keeps in memory.
    pub closed spec fn state(&self) -> GuestState {
        GuestState {
            next_turn: self.next_turn,
            in_flight: self.in_flight,
            gated: self.gated,
            queued: self.queued as nat,
            secrets: self.secrets,
        }
    }

    /// Who the supervisor says it is.
    pub closed spec fn identity(&self) -> (VmId, GuestdVersion) {
        (self.vm_id, self.version)
    }

    /// Everything that crossed the channel.
    pub closed spec fn wire(&self) -> Seq<ChannelEvent> {
        self.chan.log()
    }

    /// Whether the backlog has room for one more turn, should the next one have to wait.
    pub open spec fn can_defer(&self) -> bool {
        self.state().in_flight is None && self.state().gated ==> self.state().queued < u32::MAX
    }

    /// A supervisor that calls itself `vm_id` and `version`: idle, ungated, nothing queued.
    pub fn new(vm_id: VmId, version: GuestdVersion, chan: C) -> (guest: Guest<C>)
        ensures
            guest.identity() == (vm_id, version),
            guest.wire() == chan.log(),
            guest.state().next_turn.index == 0,
            guest.state().in_flight is None,
            !guest.state().gated,
            guest.state().queued == 0,
            guest.state().secrets@ == Map::<String, String>::empty(),
    {
        Guest {
            vm_id,
            version,
            chan,
            secrets: BTreeMap::new(),
            next_turn: TurnId::first(),
            in_flight: None,
            gated: false,
            queued: 0,
        }
    }

    /// The turn in flight, if any.
    pub fn in_flight(&self) -> (turn: Option<TurnId>)
        ensures
            turn == self.state().in_flight,
    {
        self.in_flight
    }

    /// Whether the drain gate is closed.
    pub fn is_gated(&self) -> (gated: bool)
        ensures
            gated == self.state().gated,
    {
        self.gated
    }

    /// How many turns wait for the drain gate to open.
    pub fn queued_turns(&self) -> (n: u32)
        ensures
            n == self.state().queued,
    {
        self.queued
    }

    /// The environment received from the host.
    pub fn secrets(&self) -> (env: &BTreeMap<String, String>)
        ensures
            *env == self.state().secrets,
    {
        &self.secrets
    }

    /// The underlying channel.
    pub fn channel(&self) -> (chan: &C)
        ensures
            chan.log() == self.wire(),
    {
        &self.chan
    }

    /// Takes the next message of the host from the channel.
    pub fn receive(&mut self) -> (r: Result<HostToGuest, ChannelError>)
        ensures
            final(self).identity() == old(self).identity(),
            final(self).state() == old(self).state(),
            final(self).wire() == old(self).wire().push(ChannelEvent::Received { reply: r }),
    {
        self.chan.recv()
    }

    /// Gives the channel back.
    pub fn into_channel(self) -> (chan: C)
        ensures
            chan.log() == self.wire(),
    {
        self.chan
    }

    /// Announces the VM and takes the secrets that the host answers with. They stay in memory.
    pub fn handshake(&mut self) -> (r: Result<(), GuestError>)
        ensures
            final(self).identity() == old(self).identity(),
            ({
                let hello = GuestToHost::Hello {
                    vm_id: old(self).identity().0,
                    guestd_version: old(self).identity().1,
                };
                let before = old(self).wire();
                let after = final(self).wire();
                let sent = after[before.len() as int].send_outcome();
                &&& after.take(before.len() as int + 1) == before.push(
                    ChannelEvent::Sent { msg: hello, outcome: sent },
                )
                &&& C::infallible() ==> sent is Ok
                &&& match sent {
                    Err(e) => {
                        &&& after.len() == before.len() + 1
                        &&& final(self).state() == old(self).state()
                        &&& r == Err::<(), GuestError>(GuestError::Channel(e))
                    },
                    Ok(_) => {
                        &&& after.len() == before.len() + 2
                        &&& after.last() is Received
                        &&& match after.last().receive_outcome() {
                            Ok(HostToGuest::Secrets { env }) => {
                                &&& final(self).state() == old(self).state().with_secrets(env)
                                &&& r == Ok::<(), GuestError>(())
                            },
                            Ok(_) => {
                                &&& final(self).state() == old(self).state()
                                &&& r == Err::<(), GuestError>(GuestError::UnexpectedHandshake)
                            },
                            Err(e) => {
                                &&& final(self).state() == old(self).state()
                                &&& r == Err::<(), GuestError>(GuestError::Channel(e))
                            },
                        }
                    },
                }
            }),
    {
        let ghost before = self.chan.log();
        let hello = GuestToHost::Hello { vm_id: self.vm_id, guestd_version: self.version.clone() };
        match self.chan.send(hello) {
            Ok(()) => {},
            Err(e) => {
                proof {
                    assert(self.chan.log().take(before.len() as int + 1) =~= self.chan.log());
                }
                return Err(GuestError::Channel(e));
            },
        }
        let ghost greeted = self.chan.log();
        let reply = self.chan.recv();
        proof {
            assert(self.chan.log().take(before.len() as int + 1) =~= greeted);
        }
        match reply {
            Ok(HostToGuest::Secrets { env }) => {
                self.secrets = env;
                Ok(())
            },
            Ok(_) => Err(GuestError::UnexpectedHandshake),
            Err(e) => Err(GuestError::Channel(e)),
        }
    }

    /// Starts a turn of the guest's own, or queues it where the drain gate is closed.
    pub fn start_turn(&mut self, now: Timestamp) -> (r: Result<StartOutcome, GuestError>)
        requires
            old(self).can_defer(),
        ensures
            final(self).identity() == old(self).identity(),
            match old(self).state().in_flight {
                Some(in_flight) => {
                    &&& r == Err::<StartOutcome, GuestError>(
                        GuestError::TurnInProgress { in_flight },
                    )
                    &&& final(self).state() == old(self).state()
                    &&& final(self).wire() == old(self).wire()
                },
                None => if old(self).state().gated {
                    &&& r == Ok::<StartOutcome, GuestError>(StartOutcome::Queued)
                    &&& final(self).state() == old(self).state().deferred()
                    &&& final(self).wire() == old(self).wire()
                } else {
                    let turn_id = old(self).state().next_turn;
                    &&& channel::sent_one::<C>(
                        old(self).wire(),
                        final(self).wire(),
                        GuestToHost::TurnStarted { turn_id, ts: now },
                    )
                    &&& final(self).state() == old(self).state().begun()
                    &&& r == after_send(
                        final(self).wire().last().send_outcome(),
                        StartOutcome::Started(turn_id),
                    )
                },
            },
    {
        if let Some(in_flight) = self.in_flight {
            return Err(GuestError::TurnInProgress { in_flight });
        }
        if self.gated {
            self.queued = self.queued + 1;
            return Ok(StartOutcome::Queued);
        }
        match self.begin_turn(now) {
            Ok(id) => Ok(StartOutcome::Started(id)),
            Err(e) => Err(e),
        }
    }

    /// Starts a turn that the workload has already begun: it is reported whether the drain gate is
    /// closed or not, because nothing here could still hold it back.
    pub fn begin_observed_turn(&mut self, now: Timestamp) -> (r: Result<TurnId, GuestError>)
        ensures
            final(self).identity() == old(self).identity(),
            match old(self).state().in_flight {
                Some(in_flight) => {
                    &&& r == Err::<TurnId, GuestError>(GuestError::TurnInProgress { in_flight })
                    &&& final(self).state() == old(self).state()
                    &&& final(self).wire() == old(self).wire()
                },
                None => {
                    let turn_id = old(self).state().next_turn;
                    &&& channel::sent_one::<C>(
                        old(self).wire(),
                        final(self).wire(),
                        GuestToHost::TurnStarted { turn_id, ts: now },
                    )
                    &&& final(self).state() == old(self).state().begun()
                    &&& r == after_send(final(self).wire().last().send_outcome(), turn_id)
                },
            },
    {
        if let Some(in_flight) = self.in_flight {
            return Err(GuestError::TurnInProgress { in_flight });
        }
        self.begin_turn(now)
    }

    /// Runs one turn under the host's number for it, from start to end, or queues it where the
    /// gate is closed.
    pub fn run_turn(&mut self, turn_id: TurnId, now: Timestamp) -> (r: Result<
        StartOutcome,
        GuestError,
    >)
        requires
            old(self).can_defer(),
        ensures
            final(self).identity() == old(self).identity(),
            turn_ran::<C>(
                old(self).state(),
                old(self).wire(),
                final(self).state(),
                final(self).wire(),
                turn_id,
                now,
            ),
            r == run_result(old(self).state(), old(self).wire(), final(self).wire(), turn_id),
    {
        if let Some(in_flight) = self.in_flight {
            return Err(GuestError::TurnInProgress { in_flight });
        }
        if self.gated {
            self.queued = self.queued + 1;
            return Ok(StartOutcome::Queued);
        }
        let ghost before = self.chan.log();
        self.in_flight = Some(turn_id);
        match self.chan.send(GuestToHost::TurnStarted { turn_id, ts: now }) {
            Ok(()) => {},
            Err(e) => {
                proof {
                    assert(self.chan.log().take(before.len() as int + 1) =~= self.chan.log());
                }
                return Err(GuestError::Channel(e));
            },
        }
        let ghost started = self.chan.log();
        let ended = self.chan.send(GuestToHost::TurnEnded { turn_id, ts: now });
        proof {
            assert(self.chan.log().take(before.len() as int + 1) =~= started);
        }
        match ended {
            Ok(()) => {
                self.in_flight = None;
                Ok(StartOutcome::Started(turn_id))
            },
            Err(e) => Err(GuestError::Channel(e)),
        }
    }

    /// Starts one turn of the backlog, or answers `None` where there is no backlog. The drain gate must
    /// be open and no turn running.
    pub fn replay_next(&mut self, now: Timestamp) -> (r: Result<Option<TurnId>, GuestError>)
        ensures
            final(self).identity() == old(self).identity(),
            match old(self).state().in_flight {
                Some(in_flight) => {
                    &&& r == Err::<Option<TurnId>, GuestError>(
                        GuestError::TurnInProgress { in_flight },
                    )
                    &&& final(self).state() == old(self).state()
                    &&& final(self).wire() == old(self).wire()
                },
                None => if old(self).state().gated {
                    &&& r == Err::<Option<TurnId>, GuestError>(GuestError::GatedReplay)
                    &&& final(self).state() == old(self).state()
                    &&& final(self).wire() == old(self).wire()
                } else if old(self).state().queued == 0 {
                    &&& r == Ok::<Option<TurnId>, GuestError>(None)
                    &&& final(self).state() == old(self).state()
                    &&& final(self).wire() == old(self).wire()
                } else {
                    let turn_id = old(self).state().next_turn;
                    &&& channel::sent_one::<C>(
                        old(self).wire(),
                        final(self).wire(),
                        GuestToHost::TurnStarted { turn_id, ts: now },
                    )
                    &&& final(self).state() == old(self).state().replayed()
                    &&& r == after_send(
                        final(self).wire().last().send_outcome(),
                        Some(turn_id),
                    )
                },
            },
    {
        if let Some(in_flight) = self.in_flight {
            return Err(GuestError::TurnInProgress { in_flight });
        }
        if self.gated {
            return Err(GuestError::GatedReplay);
        }
        if self.queued == 0 {
            return Ok(None);
        }
        self.queued = self.queued - 1;
        match self.begin_turn(now) {
            Ok(id) => Ok(Some(id)),
            Err(e) => Err(e),
        }
    }

    /// Wakes on the target host: announces the resume, then opens the drain gate. A turn that was
    /// running when the snapshot was taken is still running.
    pub fn resume(&mut self, now: Timestamp) -> (r: Result<(), GuestError>)
        ensures
            final(self).identity() == old(self).identity(),
            channel::sent_one::<C>(
                old(self).wire(),
                final(self).wire(),
                GuestToHost::Resumed { ts: now },
            ),
            final(self).state() == (if final(self).wire().last().send_outcome() is Ok {
                old(self).state().opened()
            } else {
                old(self).state()
            }),
            r == after_send(final(self).wire().last().send_outcome(), ()),
    {
        match self.chan.send(GuestToHost::Resumed { ts: now }) {
            Ok(()) => {
                self.gated = false;
                Ok(())
            },
            Err(e) => Err(GuestError::Channel(e)),
        }
    }

    /// Takes the next number, marks that turn in flight and reports its start.
    fn begin_turn(&mut self, now: Timestamp) -> (r: Result<TurnId, GuestError>)
        ensures
            final(self).identity() == old(self).identity(),
            channel::sent_one::<C>(
                old(self).wire(),
                final(self).wire(),
                GuestToHost::TurnStarted { turn_id: old(self).state().next_turn, ts: now },
            ),
            final(self).state() == old(self).state().begun(),
            r == after_send(
                final(self).wire().last().send_outcome(),
                old(self).state().next_turn,
            ),
    {
        let turn_id = self.next_turn;
        self.next_turn = self.next_turn.next();
        self.in_flight = Some(turn_id);
        match self.chan.send(GuestToHost::TurnStarted { turn_id, ts: now }) {
            Ok(()) => Ok(turn_id),
            Err(e) => Err(GuestError::Channel(e)),
        }
    }

    /// Reports the end of the running turn and clears it.
    pub fn end_turn(&mut self, now: Timestamp) -> (r: Result<(), GuestError>)
        ensures
            final(self).identity() == old(self).identity(),
            match old(self).state().in_flight {
                None => {
                    &&& r == Err::<(), GuestError>(GuestError::NoTurnInFlight)
                    &&& final(self).state() == old(self).state()
                    &&& final(self).wire() == old(self).wire()
                },
                Some(turn_id) => {
                    &&& channel::sent_one::<C>(
                        old(self).wire(),
                        final(self).wire(),
                        GuestToHost::TurnEnded { turn_id, ts: now },
                    )
                    &&& final(self).state() == (if final(self).wire().last().send_outcome() is Ok {
                        old(self).state().idle()
                    } else {
                        old(self).state()
                    })
                    &&& r == after_send(final(self).wire().last().send_outcome(), ())
                },
            },
    {
        let turn_id = match self.in_flight {
            Some(turn_id) => turn_id,
            None => {
                return Err(GuestError::NoTurnInFlight);
            },
        };
        match self.chan.send(GuestToHost::TurnEnded { turn_id, ts: now }) {
            Ok(()) => {
                self.in_flight = None;
                Ok(())
            },
            Err(e) => Err(GuestError::Channel(e)),
        }
    }

    /// Reacts to one message of the host. `now` is the guest's clock.
    pub fn handle(&mut self, msg: HostToGuest, now: Timestamp) -> (r: Result<(), GuestError>)
        requires
            msg is RunTurn ==> old(self).can_defer(),
        ensures
            final(self).identity() == old(self).identity(),
            match msg {
                HostToGuest::RunTurn { turn_id } => {
                    &&& turn_ran::<C>(
                        old(self).state(),
                        old(self).wire(),
                        final(self).state(),
                        final(self).wire(),
                        turn_id,
                        now,
                    )
                    &&& r == unit_result(
                        run_result(
                            old(self).state(),
                            old(self).wire(),
                            final(self).wire(),
                            turn_id,
                        ),
                    )
                },
                HostToGuest::DrainRequest { .. } => {
                    &&& channel::sent_one::<C>(
                        old(self).wire(),
                        final(self).wire(),
                        GuestToHost::DrainAck { in_flight: old(self).state().in_flight },
                    )
                    &&& final(self).state() == old(self).state().closed()
                    &&& r == after_send(final(self).wire().last().send_outcome(), ())
                },
                HostToGuest::DrainCancel => {
                    &&& final(self).wire() == old(self).wire()
                    &&& final(self).state() == old(self).state().opened()
                    &&& r == Ok::<(), GuestError>(())
                },
                HostToGuest::Secrets { env } => {
                    &&& final(self).wire() == old(self).wire()
                    &&& final(self).state() == old(self).state().with_secrets(env)
                    &&& r == Ok::<(), GuestError>(())
                },
                HostToGuest::Ping => {
                    &&& channel::sent_one::<C>(
                        old(self).wire(),
                        final(self).wire(),
                        GuestToHost::Pong,
                    )
                    &&& final(self).state() == old(self).state()
                    &&& r == after_send(final(self).wire().last().send_outcome(), ())
                },
                HostToGuest::Pong => {
                    &&& final(self).wire() == old(self).wire()
                    &&& final(self).state() == old(self).state()
                    &&& r == Ok::<(), GuestError>(())
                },
            },
    {
        match msg {
            HostToGuest::RunTurn { turn_id } => match self.run_turn(turn_id, now) {
                Ok(_) => Ok(()),
                Err(e) => Err(e),
            },
            HostToGuest::DrainRequest { deadline: _ } => {
                self.gated = true;
                let ack = GuestToHost::DrainAck { in_flight: self.in_flight };
                match self.chan.send(ack) {
                    Ok(()) => Ok(()),
                    Err(e) => Err(GuestError::Channel(e)),
                }
            },
            HostToGuest::DrainCancel => {
                self.gated = false;
                Ok(())
            },
            HostToGuest::Secrets { env } => {
                self.secrets = env;
                Ok(())
            },
            HostToGuest::Ping => match self.chan.send(GuestToHost::Pong) {
                Ok(()) => Ok(()),
                Err(e) => Err(GuestError::Channel(e)),
            },
            HostToGuest::Pong => Ok(()),
        }
    }
}

// ---------------------------------------------------------------------------
// The race rule
// ---------------------------------------------------------------------------

/// The state after `n` turns arrived at a closed gate, none of them run.
pub open spec fn deferred_times(s: GuestState, n: nat) -> GuestState
    decreases n,
{
    if n == 0 {
        s
    } else {
        deferred_times(s, (n - 1) as nat).deferred()
    }
}

/// The state after `n` turns of the backlog were replayed and ended, one after the other.
pub open spec fn replayed_times(s: GuestState, n: nat) -> GuestState
    decreases n,
{
    if n == 0 {
        s
    } else {
        replayed_times(s, (n - 1) as nat).replayed().idle()
    }
}

/// The turn `n` after `id`.
pub open spec fn nth_following(id: TurnId, n: nat) -> TurnId
    decreases n,
{
    if n == 0 {
        id
    } else {
        TurnId::following(nth_following(id, (n - 1) as nat))
    }
}

/// A turn that arrives at the closed gate of an idle guest is kept, whatever reopens the drain gate:
/// it is one more in the backlog, and replaying it starts it under the number that it would have
/// had.
pub proof fn law_gated_turn_is_deferred_not_dropped(s: GuestState)
    requires
        s.in_flight is None,
    ensures
        ({
            let kept = s.closed().deferred().opened();
            &&& kept.queued == s.queued + 1
            &&& kept.next_turn == s.next_turn
            &&& kept.replayed() == s.opened().begun()
        }),
{
}

/// Zero dropped turns: of `n` turns that arrive at a closed gate, exactly `n` replay once it
/// opens, under consecutive numbers, and the backlog is what it was.
pub proof fn law_backlog_replays_in_full(s: GuestState, n: nat)
    requires
        s.in_flight is None,
    ensures
        replayed_times(deferred_times(s.closed(), n).opened(), n) == (GuestState {
            next_turn: nth_following(s.next_turn, n),
            ..s.opened()
        }),
{
    let waiting = deferred_times(s.closed(), n).opened();
    lemma_deferred_times(s.closed(), n);
    lemma_replayed_times(waiting, n);
}

/// Deferring only lengthens the backlog.
proof fn lemma_deferred_times(s: GuestState, n: nat)
    ensures
        deferred_times(s, n) == (GuestState { queued: s.queued + n, ..s }),
    decreases n,
{
    if n > 0 {
        lemma_deferred_times(s, (n - 1) as nat);
    }
}

/// Replaying takes from the backlog and hands out consecutive numbers.
proof fn lemma_replayed_times(s: GuestState, n: nat)
    requires
        s.in_flight is None,
        n <= s.queued,
    ensures
        replayed_times(s, n) == (GuestState {
            queued: (s.queued - n) as nat,
            next_turn: nth_following(s.next_turn, n),
            ..s
        }),
    decreases n,
{
    if n > 0 {
        lemma_replayed_times(s, (n - 1) as nat);
    }
}

/// The guest's turn numbers grow: each turn that begins has a higher number than every turn
/// before it, up to the last number there is.
pub proof fn law_turn_numbers_grow(s: GuestState)
    requires
        s.next_turn.index < u64::MAX,
    ensures
        s.begun().in_flight == Some(s.next_turn),
        s.begun().next_turn.index > s.next_turn.index,
        s.replayed().in_flight == Some(s.next_turn),
        s.replayed().next_turn.index > s.next_turn.index,
{
}

/// A drain does not touch the running turn, and neither does the reopening of the drain gate: what was
/// in flight when the snapshot was taken is in flight after the restore.
pub proof fn law_drain_never_cuts_a_turn(s: GuestState)
    ensures
        s.closed().in_flight == s.in_flight,
        s.opened().in_flight == s.in_flight,
        s.closed().opened() == s.opened(),
{
}

/// Whether new turns start, how many wait and which one runs are apart: to close and to open the
/// guest, to defer a turn and to end one each change what they are named after and nothing else.
pub proof fn law_each_change_is_its_own(s: GuestState)
    ensures
        s.closed().gated,
        !s.opened().gated,
        s.closed() == (GuestState { gated: true, ..s }),
        s.opened() == (GuestState { gated: false, ..s }),
        s.deferred() == (GuestState { queued: s.queued + 1, ..s }),
        s.idle() == (GuestState { in_flight: None, ..s }),
        s.begun().queued == s.queued && s.begun().gated == s.gated && s.begun().secrets == s.secrets,
        s.queued > 0 ==> s.replayed().queued + 1 == s.queued && s.replayed().gated == s.gated,
        s.begun().idle() == (GuestState {
            next_turn: TurnId::following(s.next_turn),
            in_flight: None,
            ..s
        }),
{
}

/// A turn that the host asks for is reported from its beginning to its end, under its own number and
/// with nothing in between, and leaves the guest as it was.
pub proof fn law_turn_is_reported_whole<C: GuestChannel>(
    s0: GuestState,
    w0: Seq<ChannelEvent>,
    s1: GuestState,
    w1: Seq<ChannelEvent>,
    turn_id: TurnId,
    now: Timestamp,
)
    requires
        turn_ran::<C>(s0, w0, s1, w1, turn_id, now),
        C::infallible(),
        s0.in_flight is None,
        !s0.gated,
    ensures
        w1.len() == w0.len() + 2,
        w1.take(w0.len() as int) == w0,
        w1[w0.len() as int] matches ChannelEvent::Sent { msg, outcome } && msg
            == (GuestToHost::TurnStarted { turn_id, ts: now }) && outcome is Ok,
        w1.last() matches ChannelEvent::Sent { msg, outcome } && msg == (GuestToHost::TurnEnded {
            turn_id,
            ts: now,
        }) && outcome is Ok,
        s1 == s0,
        run_result(s0, w0, w1, turn_id) == Ok::<StartOutcome, GuestError>(
            StartOutcome::Started(turn_id),
        ),
{
    let started = w1.take(w0.len() as int + 1);
    assert(started.len() == w0.len() + 1);
    assert(w1[w0.len() as int] == started.last());
    assert(w1.take(w0.len() as int) =~= w0);
}

/// A turn that cannot run now says nothing to the host: it waits where no new turn may start, and is
/// refused where another one runs.
pub proof fn law_waiting_turn_is_silent<C: GuestChannel>(
    s0: GuestState,
    w0: Seq<ChannelEvent>,
    s1: GuestState,
    w1: Seq<ChannelEvent>,
    turn_id: TurnId,
    now: Timestamp,
)
    requires
        turn_ran::<C>(s0, w0, s1, w1, turn_id, now),
        s0.in_flight is Some || s0.gated,
    ensures
        w1 == w0,
        s0.in_flight matches Some(other) ==> s1 == s0 && run_result(s0, w0, w1, turn_id) == Err::<
            StartOutcome,
            GuestError,
        >(GuestError::TurnInProgress { in_flight: other }),
        s0.in_flight is None ==> s1.queued == s0.queued + 1 && s1.in_flight is None && run_result(
            s0,
            w0,
            w1,
            turn_id,
        ) == Ok::<StartOutcome, GuestError>(StartOutcome::Queued),
{
}

} // verus!
