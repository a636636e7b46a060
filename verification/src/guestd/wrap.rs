//! Supervision of a workload that knows nothing of the protocol.
//!
//! The supervised child declares its turns by printing one marker line at each boundary; every
//! other line is plain output. This only observes: a turn that the child has begun cannot be held
//! back, so the answer to a drain names it, and the host waits until the child is between turns.

use vstd::prelude::*;

use crate::guestd::channel;
use crate::guestd::channel::{ChannelEvent, GuestChannel};
use crate::guestd::guest;
use crate::guestd::guest::{Guest, GuestError};
pub use crate::guestd::tracker::TurnTracker;
use crate::proto::ids::{Timestamp, TurnId};
use crate::proto::vsock::{GuestToHost, HostToGuest};
use crate::text;
use crate::text::{trimmed, words_of};

verus! {

/// A turn boundary in the child's output.
#[derive(Clone, Copy, Debug, PartialEq, Eq, Structural)]
pub enum TurnSignal {
    /// The child opened a turn.
    Start,
    /// The child closed a turn.
    End,
}

/// How the child marks its turns.
#[derive(Debug, PartialEq, Eq)]
pub struct WrapConfig {
    /// The line that opens a turn.
    pub start_marker: String,
    /// The line that closes a turn.
    pub end_marker: String,
}

impl Default for WrapConfig {
    fn default() -> (config: WrapConfig)
        ensures
            config.start_marker@ == "@@TURN_START@@"@,
            config.end_marker@ == "@@TURN_END@@"@,
    {
        WrapConfig {
            start_marker: "@@TURN_START@@".to_owned(),
            end_marker: "@@TURN_END@@".to_owned(),
        }
    }
}

impl Clone for WrapConfig {
    fn clone(&self) -> (copy: WrapConfig)
        ensures
            copy == *self,
    {
        WrapConfig { start_marker: self.start_marker.clone(), end_marker: self.end_marker.clone() }
    }
}

impl WrapConfig {
    /// The boundary that a line of output marks: the line without surrounding whitespace is one of
    /// the markers. Where both markers are the same, the line opens a turn.
    pub open spec fn boundary(&self, line: Seq<char>) -> Option<TurnSignal> {
        if text::trim(line) == self.start_marker@ {
            Some(TurnSignal::Start)
        } else if text::trim(line) == self.end_marker@ {
            Some(TurnSignal::End)
        } else {
            None
        }
    }

    /// The boundary that a line of output marks, if any.
    pub fn classify(&self, line: &str) -> (signal: Option<TurnSignal>)
        ensures
            signal == self.boundary(line@),
    {
        let line = trimmed(line);
        if line == self.start_marker {
            Some(TurnSignal::Start)
        } else if line == self.end_marker {
            Some(TurnSignal::End)
        } else {
            None
        }
    }
}

/// Applies a boundary to the supervisor. The child is no peer of the protocol, so an opening while
/// a turn is running and a closing without one are passed over.
pub fn apply_signal<C: GuestChannel>(
    g: &mut Guest<C>,
    signal: TurnSignal,
    now: Timestamp,
) -> (r: Result<(), GuestError>)
    ensures
        final(g).identity() == old(g).identity(),
        match (signal, old(g).state().in_flight) {
            (TurnSignal::Start, None) => {
                &&& channel::sent_one::<C>(
                    old(g).wire(),
                    final(g).wire(),
                    GuestToHost::TurnStarted { turn_id: old(g).state().next_turn, ts: now },
                )
                &&& final(g).state() == old(g).state().begun()
                &&& r == guest::after_send(final(g).wire().last().send_outcome(), ())
            },
            (TurnSignal::End, Some(turn_id)) => {
                &&& channel::sent_one::<C>(
                    old(g).wire(),
                    final(g).wire(),
                    GuestToHost::TurnEnded { turn_id, ts: now },
                )
                &&& final(g).state() == (if final(g).wire().last().send_outcome() is Ok {
                    old(g).state().idle()
                } else {
                    old(g).state()
                })
                &&& r == guest::after_send(final(g).wire().last().send_outcome(), ())
            },
            _ => {
                &&& final(g).state() == old(g).state()
                &&& final(g).wire() == old(g).wire()
                &&& r == Ok::<(), GuestError>(())
            },
        },
{
    match signal {
        TurnSignal::Start => {
            if g.in_flight().is_some() {
                return Ok(());
            }
            match g.begin_observed_turn(now) {
                Ok(_) => Ok(()),
                Err(e) => Err(e),
            }
        },
        TurnSignal::End => {
            if g.in_flight().is_none() {
                return Ok(());
            }
            g.end_turn(now)
        },
    }
}

// ---------------------------------------------------------------------------
// Turn state apart from any connection
// ---------------------------------------------------------------------------

/// Whether the child is in a turn, and how many turns it has opened.
#[derive(Clone, Copy, Debug, PartialEq, Eq, Structural)]
pub struct TurnState {
    pub in_turn: bool,
    pub last_id: u64,
}

impl TurnState {
    /// The state after a boundary. A turn that opens gets the next number, which wraps; an opening
    /// in a turn changes nothing, and a closing only closes.
    pub open spec fn after(self, signal: TurnSignal) -> TurnState {
        match signal {
            TurnSignal::Start => if self.in_turn {
                self
            } else {
                TurnState { in_turn: true, last_id: self.last_id.wrapping_add(1) }
            },
            TurnSignal::End => TurnState { in_turn: false, last_id: self.last_id },
        }
    }

    /// The state after boundaries, in their order.
    pub open spec fn after_all(self, signals: Seq<TurnSignal>) -> TurnState
        decreases signals.len(),
    {
        if signals.len() == 0 {
            self
        } else {
            self.after_all(signals.drop_last()).after(signals.last())
        }
    }

    /// Whether boundaries, and nothing else, can lead from here to `later`.
    pub closed spec fn leads_to(self, later: TurnState) -> bool {
        exists|signals: Seq<TurnSignal>| later == #[trigger] self.after_all(signals)
    }

    /// The running turn.
    pub open spec fn current(self) -> Option<TurnId> {
        if self.in_turn {
            Some(TurnId { index: self.last_id })
        } else {
            None
        }
    }

    /// Between turns, none opened yet.
    pub fn new() -> (state: TurnState)
        ensures
            !state.in_turn,
            state.last_id == 0,
    {
        TurnState { in_turn: false, last_id: 0 }
    }

    /// Takes a boundary into account.
    pub fn apply(&mut self, signal: TurnSignal)
        ensures
            *final(self) == old(self).after(signal),
    {
        match signal {
            TurnSignal::Start => {
                if !self.in_turn {
                    self.in_turn = true;
                    self.last_id = self.last_id.wrapping_add(1);
                }
            },
            TurnSignal::End => {
                self.in_turn = false;
            },
        }
    }

    /// The running turn, which is what a drain is answered with.
    pub fn in_flight(&self) -> (turn: Option<TurnId>)
        ensures
            turn == self.current(),
    {
        if self.in_turn {
            Some(TurnId::from_u64(self.last_id))
        } else {
            None
        }
    }
}

/// A second opening in a row does not change the turn's number; the next genuine opening does.
pub proof fn law_number_advances_only_on_genuine_open(s: TurnState)
    ensures
        ({
            let open = s.after(TurnSignal::Start);
            let reopened = open.after(TurnSignal::End).after(TurnSignal::Start);
            &&& open.after(TurnSignal::Start) == open
            &&& open.current() is Some
            &&& reopened.current() is Some
            &&& reopened.current() != open.current()
        }),
{
}

/// After a closing the child is between turns, whatever came before.
pub proof fn law_close_is_idle(s: TurnState)
    ensures
        s.after(TurnSignal::End).current() is None,
        s.after(TurnSignal::End).after(TurnSignal::End) == s.after(TurnSignal::End),
{
}

/// Whatever came before, a turn runs exactly where the last boundary was an opening.
pub proof fn law_turn_runs_after_an_opening(s: TurnState, signals: Seq<TurnSignal>)
    requires
        signals.len() > 0,
    ensures
        s.after_all(signals).current() is Some <==> signals.last() == TurnSignal::Start,
{
}

/// A state is led to from itself, by no boundaries.
pub proof fn lemma_leads_to_itself(s: TurnState)
    ensures
        s.leads_to(s),
{
    assert(s.after_all(Seq::empty()) == s);
}

/// One more boundary leads on.
pub proof fn lemma_leads_on(s: TurnState, now: TurnState, signal: TurnSignal)
    requires
        s.leads_to(now),
    ensures
        s.leads_to(now.after(signal)),
{
    let signals = choose|signals: Seq<TurnSignal>| now == #[trigger] s.after_all(signals);
    assert(signals.push(signal).drop_last() =~= signals);
    assert(s.after_all(signals.push(signal)) == now.after(signal));
}

// ---------------------------------------------------------------------------
// Serving a host
// ---------------------------------------------------------------------------

/// What a supervisor that only observes answers to a message while `in_flight` is running: drains
/// and probes are answered, everything else is passed over.
pub open spec fn reply_to(msg: HostToGuest, in_flight: Option<TurnId>) -> Option<GuestToHost> {
    match msg {
        HostToGuest::DrainRequest { .. } => Some(GuestToHost::DrainAck { in_flight }),
        HostToGuest::Ping => Some(GuestToHost::Pong),
        _ => None,
    }
}

/// The answer to a message while `in_flight` is running.
pub fn wrap_reply(msg: &HostToGuest, in_flight: Option<TurnId>) -> (reply: Option<GuestToHost>)
    ensures
        reply == reply_to(*msg, in_flight),
{
    match msg {
        HostToGuest::DrainRequest { .. } => Some(GuestToHost::DrainAck { in_flight }),
        HostToGuest::Ping => Some(GuestToHost::Pong),
        _ => None,
    }
}

/// Answers `msg` with `in_flight` running. The result says whether the host is still there.
pub fn answer<C: GuestChannel>(chan: &mut C, msg: &HostToGuest, in_flight: Option<TurnId>) -> (on:
    bool)
    ensures
        match reply_to(*msg, in_flight) {
            Some(reply) => {
                &&& channel::sent_one::<C>(old(chan).log(), final(chan).log(), reply)
                &&& on == (final(chan).log().last().send_outcome() is Ok)
            },
            None => final(chan).log() == old(chan).log() && on,
        },
{
    match wrap_reply(msg, in_flight) {
        Some(reply) => chan.send(reply).is_ok(),
        None => true,
    }
}

/// Takes one message of the host and answers it from the shared turn state. The result says
/// whether the host is still there: once it is `false`, the caller accepts the next connection.
pub fn serve_wrap_message<C: GuestChannel>(chan: &mut C, tracker: &TurnTracker) -> (on: bool)
    ensures
        ({
            let before = old(chan).log();
            let after = final(chan).log();
            let received = before.push(ChannelEvent::Received { reply: after[before.len() as int].receive_outcome() });
            &&& after.len() > before.len()
            &&& after.take(before.len() as int + 1) == received
            &&& match after[before.len() as int].receive_outcome() {
                Err(_) => after == received && !on,
                Ok(msg) => exists|in_flight: Option<TurnId>|
                    tracker.can_show(in_flight) && match #[trigger] reply_to(msg, in_flight) {
                        Some(reply) => {
                            &&& channel::sent_one::<C>(received, after, reply)
                            &&& on == (after.last().send_outcome() is Ok)
                        },
                        None => after == received && on,
                    },
            }
        }),
{
    let ghost before = chan.log();
    let got = chan.recv();
    let ghost received = chan.log();
    proof {
        assert(received.take(before.len() as int + 1) =~= received);
    }
    match got {
        Err(_) => false,
        Ok(msg) => {
            let in_flight = tracker.in_flight();
            let on: bool = answer(chan, &msg, in_flight);
            proof {
                assert(chan.log().take(before.len() as int + 1) =~= received);
                assert(reply_to(msg, in_flight) == reply_to(msg, in_flight));
            }
            on
        },
    }
}

// ---------------------------------------------------------------------------
// What to supervise
// ---------------------------------------------------------------------------

/// The first of two texts that is there.
pub open spec fn first_of(a: Option<String>, b: Option<String>) -> Option<String> {
    match a {
        Some(_) => a,
        None => b,
    }
}

/// The command to supervise and its markers, or `None` where the host drives the turns. The
/// command is taken from the environment, or failing that from the command file, without
/// surrounding whitespace; an empty one counts as none. The markers default to the usual ones.
pub fn wrap_config(
    command: Option<String>,
    command_file: Option<String>,
    start: Option<String>,
    end: Option<String>,
) -> (out: Option<(String, WrapConfig)>)
    ensures
        match out {
            None => match first_of(command, command_file) {
                Some(c) => text::trim(c@).len() == 0,
                None => true,
            },
            Some((cmd, config)) => {
                &&& first_of(command, command_file) matches Some(c) && cmd@ == text::trim(c@)
                &&& cmd@.len() > 0
                &&& config.start_marker@ == match start {
                    Some(marker) => marker@,
                    None => "@@TURN_START@@"@,
                }
                &&& config.end_marker@ == match end {
                    Some(marker) => marker@,
                    None => "@@TURN_END@@"@,
                }
            },
        },
{
    let given = match command {
        Some(c) => Some(c),
        None => command_file,
    };
    match given {
        None => None,
        Some(c) => {
            let cmd = trimmed(&c);
            if cmd.unicode_len() == 0 {
                return None;
            }
            let mut config = WrapConfig::default();
            if let Some(marker) = start {
                config.start_marker = marker;
            }
            if let Some(marker) = end {
                config.end_marker = marker;
            }
            Some((cmd, config))
        },
    }
}

/// The program and the arguments of a command, which is split at whitespace and passed to no
/// shell; `None` for a command without a program.
pub fn split_command(cmd: &str) -> (out: Option<(String, Vec<String>)>)
    ensures
        match out {
            None => text::words(cmd@).len() == 0,
            Some((program, args)) => {
                &&& text::words(cmd@).len() > 0
                &&& program@ == text::words(cmd@)[0]
                &&& text::views(args@) == text::words(cmd@).skip(1)
            },
        },
{
    let mut argv = words_of(cmd);
    let ghost all = argv@;
    if argv.len() == 0 {
        return None;
    }
    let program = argv.remove(0);
    proof {
        assert(text::views(all)[0] == all[0]@);
        assert(text::views(argv@) =~= text::words(cmd@).skip(1));
    }
    Some((program, argv))
}

// ---------------------------------------------------------------------------
// The life of a supervised child
// ---------------------------------------------------------------------------

/// What the supervisor of a child does next.
#[derive(Clone, Copy, Debug, PartialEq, Eq, Structural)]
pub enum WrapStep {
    /// Start the child, with the host's secrets in its environment or without.
    SpawnChild {
        /// Whether the secrets go into the child's environment.
        with_secrets: bool,
    },
    /// Accept a host's connection and shake hands.
    Accept,
    /// Tell the host of a restored VM that the guest is alive again.
    AnnounceResume,
    /// Answer the host's messages until it disconnects.
    Serve,
    /// Give up.
    Exit,
}

/// What came of a step.
#[derive(Clone, Copy, Debug, PartialEq, Eq, Structural)]
pub enum WrapEvent {
    /// The child was started, or could not be.
    Spawned(bool),
    /// A host connected and the handshake was completed, or not.
    Connected(bool),
    /// The resume was announced, or could not be.
    Announced(bool),
    /// The host disconnected.
    Disconnected,
}

/// Where the supervision of a child stands.
#[derive(Clone, Copy, Debug, PartialEq, Eq, Structural)]
pub struct WrapSession {
    /// Whether the child waits for the host's secrets.
    pub await_secrets: bool,
    /// Whether the child has been started.
    pub spawned: bool,
    /// Whether no host has completed a handshake yet.
    pub first_connection: bool,
}

impl WrapSession {
    /// The supervision begins: a child that needs no secrets is started before any host connects.
    pub fn begin(await_secrets: bool) -> (out: (WrapSession, WrapStep))
        ensures
            out.0 == (WrapSession { await_secrets, spawned: false, first_connection: true }),
            out.1 == if await_secrets {
                WrapStep::Accept
            } else {
                WrapStep::SpawnChild { with_secrets: false }
            },
    {
        let session = WrapSession { await_secrets, spawned: false, first_connection: true };
        if await_secrets {
            (session, WrapStep::Accept)
        } else {
            (session, WrapStep::SpawnChild { with_secrets: false })
        }
    }

    /// The session after an event.
    pub open spec fn after(self, event: WrapEvent) -> WrapSession {
        match event {
            WrapEvent::Spawned(true) => WrapSession { spawned: true, ..self },
            WrapEvent::Connected(true) => WrapSession { first_connection: false, ..self },
            _ => self,
        }
    }

    /// The step that an event calls for.
    pub open spec fn step(self, event: WrapEvent) -> WrapStep {
        match event {
            WrapEvent::Spawned(false) => WrapStep::Exit,
            WrapEvent::Spawned(true) => if self.first_connection {
                WrapStep::Accept
            } else {
                WrapStep::Serve
            },
            WrapEvent::Connected(false) => WrapStep::Accept,
            WrapEvent::Connected(true) => if !self.first_connection {
                WrapStep::AnnounceResume
            } else if self.await_secrets && !self.spawned {
                WrapStep::SpawnChild { with_secrets: true }
            } else {
                WrapStep::Serve
            },
            WrapEvent::Announced(true) => WrapStep::Serve,
            WrapEvent::Announced(false) => WrapStep::Accept,
            WrapEvent::Disconnected => WrapStep::Accept,
        }
    }

    /// Takes what came of the last step and says what to do next.
    pub fn next(&mut self, event: WrapEvent) -> (step: WrapStep)
        ensures
            *final(self) == old(self).after(event),
            step == old(self).step(event),
    {
        match event {
            WrapEvent::Spawned(ok) => {
                if !ok {
                    return WrapStep::Exit;
                }
                self.spawned = true;
                if self.first_connection {
                    WrapStep::Accept
                } else {
                    WrapStep::Serve
                }
            },
            WrapEvent::Connected(ok) => {
                if !ok {
                    return WrapStep::Accept;
                }
                if !self.first_connection {
                    return WrapStep::AnnounceResume;
                }
                self.first_connection = false;
                if self.await_secrets && !self.spawned {
                    WrapStep::SpawnChild { with_secrets: true }
                } else {
                    WrapStep::Serve
                }
            },
            WrapEvent::Announced(ok) => {
                if ok {
                    WrapStep::Serve
                } else {
                    WrapStep::Accept
                }
            },
            WrapEvent::Disconnected => WrapStep::Accept,
        }
    }

    /// What holds between steps: once a host has shaken hands or the child needs no secrets, the
    /// next step cannot leave the child unstarted, except the step that starts it.
    pub open spec fn consistent(self, step: WrapStep) -> bool {
        match step {
            WrapStep::SpawnChild { with_secrets } => {
                &&& !self.spawned
                &&& with_secrets == self.await_secrets
                &&& with_secrets == !self.first_connection
            },
            WrapStep::Accept => self.spawned || (self.await_secrets && self.first_connection),
            WrapStep::AnnounceResume => self.spawned && !self.first_connection,
            WrapStep::Serve => self.spawned && !self.first_connection,
            WrapStep::Exit => true,
        }
    }

    /// Whether an event can come of a step.
    pub open spec fn answers(event: WrapEvent, step: WrapStep) -> bool {
        match step {
            WrapStep::SpawnChild { .. } => event is Spawned,
            WrapStep::Accept => event is Connected,
            WrapStep::AnnounceResume => event is Announced,
            WrapStep::Serve => event is Disconnected,
            WrapStep::Exit => false,
        }
    }
}

/// The supervision begins consistent.
pub proof fn law_wrap_session_begins_consistent(await_secrets: bool)
    ensures
        ({
            let session = WrapSession { await_secrets, spawned: false, first_connection: true };
            let step = if await_secrets {
                WrapStep::Accept
            } else {
                WrapStep::SpawnChild { with_secrets: false }
            };
            session.consistent(step)
        }),
{
}

/// The supervision stays consistent, whatever happens: the child is started once, never again
/// after that, with secrets exactly where it waits for them, no host is served before it runs, and
/// only a connection after the first one is told of a resume.
pub proof fn law_wrap_session_stays_consistent(
    session: WrapSession,
    step: WrapStep,
    event: WrapEvent,
)
    requires
        session.consistent(step),
        WrapSession::answers(event, step),
    ensures
        session.after(event).consistent(session.step(event)),
        session.spawned ==> session.after(event).spawned && !(session.step(event) is SpawnChild),
{
}

/// A line is a boundary where it holds a marker and white space around it, and no other line is.
pub proof fn law_markers_bound_turns(
    config: WrapConfig,
    before: Seq<char>,
    after: Seq<char>,
    line: Seq<char>,
)
    requires
        forall|i: int| 0 <= i < before.len() ==> text::is_space(#[trigger] before[i]),
        forall|i: int| 0 <= i < after.len() ==> text::is_space(#[trigger] after[i]),
        config.start_marker@.len() > 0,
        config.end_marker@.len() > 0,
        !text::is_space(config.start_marker@[0]) && !text::is_space(config.start_marker@.last()),
        !text::is_space(config.end_marker@[0]) && !text::is_space(config.end_marker@.last()),
    ensures
        config.boundary(before + config.start_marker@ + after) == Some(TurnSignal::Start),
        config.end_marker@ != config.start_marker@ ==> config.boundary(
            before + config.end_marker@ + after,
        ) == Some(TurnSignal::End),
        text::trim(line) != config.start_marker@ && text::trim(line) != config.end_marker@
            ==> config.boundary(line) is None,
{
    text::law_trim_gives_the_text_back(before, config.start_marker@, after);
    text::law_trim_gives_the_text_back(before, config.end_marker@, after);
}

/// A turn that opens gets the number after the last one, keeps it while it runs, and its end leaves
/// the number with it.
pub proof fn law_turns_are_numbered_in_a_row(s: TurnState)
    ensures
        !s.in_turn ==> s.after(TurnSignal::Start).current() == Some(
            TurnId { index: s.last_id.wrapping_add(1) },
        ),
        s.in_turn ==> s.after(TurnSignal::Start).current() == s.current(),
        s.after(TurnSignal::End).last_id == s.last_id,
        s.current() matches Some(turn) ==> turn.index == s.last_id,
{
}

/// A host that asks whether the guest is idle is told which turn runs, as it is; a ping is answered,
/// and nothing else is.
pub proof fn law_replies_say_what_runs(msg: HostToGuest, in_flight: Option<TurnId>)
    ensures
        reply_to(msg, in_flight) is Some <==> msg is DrainRequest || msg is Ping,
        msg is DrainRequest ==> reply_to(msg, in_flight) == Some(
            GuestToHost::DrainAck { in_flight },
        ),
        msg is Ping ==> reply_to(msg, in_flight) == Some(GuestToHost::Pong),
{
}

/// The supervision follows the host: the first host to connect is served at once, every later one is
/// told first that the guest is alive again, and whenever a host is gone the next one is awaited. The
/// child is started once, and without it nothing is served.
pub proof fn law_supervision_follows_the_host(session: WrapSession, event: WrapEvent)
    ensures
        event is Disconnected ==> session.step(event) is Accept,
        event == WrapEvent::Connected(false) ==> session.step(event) is Accept && session.after(event)
            == session,
        event == WrapEvent::Connected(true) && !session.first_connection ==> session.step(event)
            is AnnounceResume,
        event == WrapEvent::Connected(true) && session.first_connection && session.spawned
            ==> session.step(event) is Serve,
        event == WrapEvent::Connected(true) && session.first_connection && session.await_secrets
            && !session.spawned ==> session.step(event) == (WrapStep::SpawnChild {
            with_secrets: true,
        }),
        event == WrapEvent::Connected(true) ==> !session.after(event).first_connection,
        event == WrapEvent::Announced(true) ==> session.step(event) is Serve,
        event == WrapEvent::Announced(false) ==> session.step(event) is Accept,
        event == WrapEvent::Spawned(false) ==> session.step(event) is Exit && session.after(event)
            == session,
        event == WrapEvent::Spawned(true) ==> session.after(event).spawned && session.step(event)
            == (if session.first_connection {
            WrapStep::Accept
        } else {
            WrapStep::Serve
        }),
        session.after(event).await_secrets == session.await_secrets,
        !(event is Spawned) ==> session.after(event).spawned == session.spawned,
        !(event is Connected) ==> session.after(event).first_connection == session.first_connection,
{
}

/// Of two places that a command can come from the first counts.
pub proof fn law_first_command_counts(a: Option<String>, b: Option<String>)
    ensures
        a is Some ==> first_of(a, b) == a,
        a is None ==> first_of(a, b) == b,
{
}

} // verus!
