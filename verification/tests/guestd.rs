//! The guest's supervisor, its clock, its framing and its wrap mode.

use std::collections::BTreeMap;

use sleepwalk::guestd::channel::{ChannelError, GuestChannel};
use sleepwalk::guestd::clock::ClockFixup;
use sleepwalk::guestd::framing::{from_line, to_line, wall_clock, NEWLINE};
use sleepwalk::guestd::guest::{Guest, GuestError, StartOutcome};
use sleepwalk::guestd::pseudo_channel::PseudoChannel;
use sleepwalk::guestd::wrap::{
    apply_signal, serve_wrap_message, split_command, wrap_config, wrap_reply, TurnSignal,
    TurnState, TurnTracker, WrapConfig, WrapEvent, WrapSession, WrapStep,
};
use sleepwalk::proto::ids::{GuestdVersion, Timestamp, TurnId, VmId};
use sleepwalk::proto::vsock::{GuestToHost, HostToGuest};
use sleepwalk::time::Duration;

fn guest_on(chan: PseudoChannel) -> Guest<PseudoChannel> {
    Guest::new(VmId::from_uuid(0), GuestdVersion::new("0.1.0"), chan)
}

fn guest() -> Guest<PseudoChannel> {
    guest_on(PseudoChannel::new())
}

fn ts(n: u64) -> Timestamp {
    Timestamp::from_nanos(n)
}

fn drain_request() -> HostToGuest {
    HostToGuest::DrainRequest { deadline: Duration::from_secs(5) }
}

// The clock.

#[test]
fn forward_skew_is_corrected() {
    let fixup = ClockFixup::between(ts(1_000), ts(1_500));
    assert!(fixup.is_skewed());
    assert_eq!(fixup.offset_nanos(), 500);
    assert_eq!(fixup.correct(ts(1_200)), ts(1_700));
}

#[test]
fn no_skew_is_identity() {
    let fixup = ClockFixup::between(ts(2_000), ts(2_000));
    assert!(!fixup.is_skewed());
    assert_eq!(fixup.correct(ts(9_999)), ts(9_999));
    assert_eq!(ClockFixup::none(), fixup);
}

#[test]
fn corrected_timestamps_are_comparable_across_the_move() {
    let before = ts(1_400);
    let fixup = ClockFixup::between(ts(1_000), ts(1_500));
    let after = fixup.correct(ts(1_100));
    assert!(after > before, "corrected post-move ts must sort after pre-move");
}

#[test]
fn backward_correction_saturates_at_epoch() {
    let fixup = ClockFixup::between(ts(1_000), ts(100));
    assert_eq!(fixup.correct(ts(500)), ts(0));
}

#[test]
fn forward_correction_saturates_at_the_end_of_time() {
    let fixup = ClockFixup::between(ts(0), ts(u64::MAX));
    assert_eq!(fixup.offset_nanos(), u64::MAX as i128);
    assert_eq!(fixup.correct(ts(1)), ts(u64::MAX));
}

// Lines.

#[test]
fn a_message_is_one_line() {
    assert_eq!(to_line(b"{}".to_vec()), b"{}\n".to_vec());
    assert_eq!(NEWLINE, b'\n');
    assert_eq!(from_line(4, "{} \n"), Ok("{}".to_owned()));
}

#[test]
fn closed_peer_surfaces_as_closed() {
    assert_eq!(from_line(0, ""), Err(ChannelError::Closed));
}

#[test]
fn the_wall_clock_keeps_its_low_bits() {
    assert_eq!(wall_clock(Some(7)), ts(7));
    assert_eq!(wall_clock(Some((1u128 << 64) + 9)), ts(9));
    assert_eq!(wall_clock(None), ts(0));
}

// The supervisor.

#[test]
fn handshake_sends_hello_and_stores_secrets() {
    let mut env = BTreeMap::new();
    env.insert("ANTHROPIC_API_KEY".to_owned(), "sk-x".to_owned());
    let mut chan = PseudoChannel::new();
    chan.push_inbound(HostToGuest::Secrets { env: env.clone() });
    let mut g = guest_on(chan);

    assert!(g.handshake().is_ok());

    assert_eq!(g.secrets(), &env);
    assert!(matches!(g.channel().sent().as_slice(), [GuestToHost::Hello { .. }]));
}

#[test]
fn handshake_rejects_non_secrets_reply() {
    let mut chan = PseudoChannel::new();
    chan.push_inbound(HostToGuest::Ping);
    let mut g = guest_on(chan);
    assert!(matches!(g.handshake(), Err(GuestError::UnexpectedHandshake)));
}

#[test]
fn handshake_fails_when_the_host_hangs_up() {
    let mut g = guest();
    assert!(matches!(g.handshake(), Err(GuestError::Channel(ChannelError::Closed))));
}

#[test]
fn turns_are_monotonic_and_emit_signals() {
    let mut g = guest();
    let Ok(StartOutcome::Started(t0)) = g.start_turn(ts(1)) else {
        panic!("should start");
    };
    assert!(g.end_turn(ts(2)).is_ok());
    let Ok(StartOutcome::Started(t1)) = g.start_turn(ts(3)) else {
        panic!("should start");
    };
    assert!(g.end_turn(ts(4)).is_ok());

    assert_eq!(t0, TurnId::first());
    assert_eq!(t1, TurnId::first().next());
    assert!(matches!(
        g.channel().sent().as_slice(),
        [
            GuestToHost::TurnStarted { .. },
            GuestToHost::TurnEnded { .. },
            GuestToHost::TurnStarted { .. },
            GuestToHost::TurnEnded { .. },
        ]
    ));
}

#[test]
fn host_driven_turn_echoes_its_id_and_clears() {
    let mut g = guest();
    let id = TurnId::from_u64(42);
    let outcome = g.run_turn(id, ts(1));
    assert_eq!(outcome, Ok(StartOutcome::Started(id)));
    assert!(g.in_flight().is_none());
    assert!(matches!(
        g.channel().sent().as_slice(),
        [
            GuestToHost::TurnStarted { turn_id: a, .. },
            GuestToHost::TurnEnded { turn_id: b, .. },
        ] if *a == id && *b == id
    ));
}

#[test]
fn host_driven_turn_is_deferred_while_gated() {
    let mut g = guest();
    assert!(g.handle(drain_request(), ts(0)).is_ok());
    let outcome = g.run_turn(TurnId::from_u64(7), ts(1));
    assert_eq!(outcome, Ok(StartOutcome::Queued));
    assert_eq!(g.queued_turns(), 1);
    assert!(matches!(
        g.channel().sent().as_slice(),
        [GuestToHost::DrainAck { in_flight: None }]
    ));
}

#[test]
fn starting_a_turn_while_one_runs_is_rejected() {
    let mut g = guest();
    assert!(g.start_turn(ts(1)).is_ok());
    assert!(matches!(g.start_turn(ts(2)), Err(GuestError::TurnInProgress { .. })));
}

#[test]
fn ending_with_no_turn_is_rejected() {
    let mut g = guest();
    assert!(matches!(g.end_turn(ts(1)), Err(GuestError::NoTurnInFlight)));
}

#[test]
fn drain_while_idle_acks_none_and_gates_new_turns() {
    let mut g = guest();
    assert!(g.handle(drain_request(), ts(0)).is_ok());

    assert!(g.is_gated());
    assert!(matches!(
        g.channel().sent().as_slice(),
        [GuestToHost::DrainAck { in_flight: None }]
    ));
    assert_eq!(g.start_turn(ts(1)), Ok(StartOutcome::Queued));
    assert_eq!(g.queued_turns(), 1);
    assert_eq!(g.channel().sent().len(), 1);
}

#[test]
fn queued_turns_replay_after_resume_with_continuing_ids() {
    let mut g = guest();
    let Ok(StartOutcome::Started(t0)) = g.start_turn(ts(1)) else {
        panic!("should start");
    };
    assert!(g.end_turn(ts(2)).is_ok());

    assert!(g.handle(drain_request(), ts(0)).is_ok());
    assert_eq!(g.start_turn(ts(3)), Ok(StartOutcome::Queued));
    assert_eq!(g.start_turn(ts(4)), Ok(StartOutcome::Queued));
    assert_eq!(g.queued_turns(), 2);

    assert!(matches!(g.replay_next(ts(5)), Err(GuestError::GatedReplay)));

    assert!(g.resume(ts(6)).is_ok());
    assert!(!g.is_gated());
    assert!(matches!(g.channel().sent().last(), Some(GuestToHost::Resumed { .. })));

    let Ok(Some(r0)) = g.replay_next(ts(7)) else {
        panic!("one");
    };
    assert!(g.end_turn(ts(8)).is_ok());
    let Ok(Some(r1)) = g.replay_next(ts(9)) else {
        panic!("two");
    };
    assert!(g.end_turn(ts(10)).is_ok());
    assert_eq!(g.replay_next(ts(11)), Ok(None));

    assert_eq!(r0, t0.next());
    assert_eq!(r1, t0.next().next());
    assert_eq!(g.queued_turns(), 0);
}

#[test]
fn drain_cancel_lets_the_backlog_replay_on_the_same_host() {
    let mut g = guest();
    assert!(g.handle(drain_request(), ts(0)).is_ok());
    assert_eq!(g.start_turn(ts(1)), Ok(StartOutcome::Queued));

    assert!(g.handle(HostToGuest::DrainCancel, ts(0)).is_ok());
    assert_eq!(g.queued_turns(), 1);
    assert_eq!(g.replay_next(ts(2)), Ok(Some(TurnId::first())));
    assert_eq!(g.queued_turns(), 0);
}

#[test]
fn replay_is_refused_while_a_turn_is_in_flight() {
    let mut g = guest();
    assert!(g.handle(drain_request(), ts(0)).is_ok());
    assert!(g.start_turn(ts(1)).is_ok());
    assert!(g.handle(HostToGuest::DrainCancel, ts(0)).is_ok());

    assert!(g.start_turn(ts(2)).is_ok());
    assert!(matches!(g.replay_next(ts(3)), Err(GuestError::TurnInProgress { .. })));
}

#[test]
fn drain_while_busy_acks_the_in_flight_turn() {
    let mut g = guest();
    let Ok(StartOutcome::Started(turn)) = g.start_turn(ts(1)) else {
        panic!("should start");
    };
    assert!(g.handle(drain_request(), ts(0)).is_ok());

    assert!(matches!(
        g.channel().sent().last(),
        Some(GuestToHost::DrainAck { in_flight: Some(t) }) if *t == turn
    ));
}

#[test]
fn drain_cancel_reopens_the_gate() {
    let mut g = guest();
    assert!(g.handle(drain_request(), ts(0)).is_ok());
    assert!(g.is_gated());

    assert!(g.handle(HostToGuest::DrainCancel, ts(0)).is_ok());
    assert!(!g.is_gated());
    assert!(matches!(g.start_turn(ts(9)), Ok(StartOutcome::Started(_))));
}

#[test]
fn ping_is_answered_with_pong() {
    let mut g = guest();
    assert!(g.handle(HostToGuest::Ping, ts(0)).is_ok());
    assert!(matches!(g.channel().sent().as_slice(), [GuestToHost::Pong]));
}

#[test]
fn late_secrets_replace_the_environment() {
    let mut g = guest();
    let mut env = BTreeMap::new();
    env.insert("K".to_owned(), "V".to_owned());
    assert!(g.handle(HostToGuest::Secrets { env: env.clone() }, ts(0)).is_ok());
    assert_eq!(g.secrets(), &env);
    assert!(g.channel().sent().is_empty());
}

#[test]
fn a_run_turn_message_runs_the_turn() {
    let mut g = guest();
    let turn_id = TurnId::from_u64(3);
    assert!(g.handle(HostToGuest::RunTurn { turn_id }, ts(1)).is_ok());
    assert_eq!(g.channel().sent().len(), 2);
}

// Wrap mode.

#[test]
fn classify_matches_markers_and_ignores_other_lines() {
    let cfg = WrapConfig::default();
    assert_eq!(cfg.classify("@@TURN_START@@"), Some(TurnSignal::Start));
    assert_eq!(cfg.classify("@@TURN_END@@"), Some(TurnSignal::End));
    assert_eq!(cfg.classify("  @@TURN_START@@\n"), Some(TurnSignal::Start));
    assert_eq!(cfg.classify("computed sequence value 7"), None);
    assert_eq!(cfg.classify("prefix @@TURN_START@@"), None);
}

#[test]
fn classify_honours_custom_markers() {
    let cfg =
        WrapConfig { start_marker: ">>begin".to_owned(), end_marker: ">>end".to_owned() };
    assert_eq!(cfg.classify(">>begin"), Some(TurnSignal::Start));
    assert_eq!(cfg.classify("@@TURN_START@@"), None);
}

#[test]
fn clean_alternation_emits_one_started_then_ended() {
    let mut g = guest();
    assert!(apply_signal(&mut g, TurnSignal::Start, ts(1)).is_ok());
    assert!(g.in_flight().is_some());
    assert!(apply_signal(&mut g, TurnSignal::End, ts(2)).is_ok());
    assert!(g.in_flight().is_none());
    assert!(matches!(
        g.channel().sent().as_slice(),
        [GuestToHost::TurnStarted { .. }, GuestToHost::TurnEnded { .. }]
    ));
}

#[test]
fn duplicate_start_is_ignored() {
    let mut g = guest();
    assert!(apply_signal(&mut g, TurnSignal::Start, ts(1)).is_ok());
    assert!(apply_signal(&mut g, TurnSignal::Start, ts(2)).is_ok());
    assert_eq!(g.channel().sent().len(), 1);
}

#[test]
fn stray_end_is_ignored() {
    let mut g = guest();
    assert!(apply_signal(&mut g, TurnSignal::End, ts(1)).is_ok());
    assert!(g.channel().sent().is_empty());
}

#[test]
fn observed_turn_bypasses_the_drain_gate() {
    let mut g = guest();
    assert!(g.handle(drain_request(), ts(0)).is_ok());
    assert!(g.is_gated());

    assert!(apply_signal(&mut g, TurnSignal::Start, ts(1)).is_ok());
    assert!(g.in_flight().is_some());
    assert_eq!(g.queued_turns(), 0);
    assert!(matches!(g.channel().sent().last(), Some(GuestToHost::TurnStarted { .. })));
}

#[test]
fn tracker_starts_quiescent() {
    assert_eq!(TurnTracker::new().in_flight(), None);
}

#[test]
fn tracker_tracks_open_and_close() {
    let t = TurnTracker::new();
    t.apply(TurnSignal::Start);
    assert!(t.in_flight().is_some(), "in a turn after start");
    t.apply(TurnSignal::End);
    assert_eq!(t.in_flight(), None, "between turns after end");
}

#[test]
fn tracker_id_advances_only_on_genuine_open() {
    let t = TurnTracker::new();
    t.apply(TurnSignal::Start);
    let first = t.in_flight();
    t.apply(TurnSignal::Start);
    assert_eq!(t.in_flight(), first, "duplicate start does not bump the id");
    t.apply(TurnSignal::End);
    t.apply(TurnSignal::Start);
    assert_ne!(t.in_flight(), first, "a new turn gets a new id");
}

#[test]
fn tracker_ignores_stray_close() {
    let t = TurnTracker::new();
    t.apply(TurnSignal::End);
    assert_eq!(t.in_flight(), None);
}

#[test]
fn tracker_clone_shares_state() {
    let a = TurnTracker::new();
    let b = a.clone();
    a.apply(TurnSignal::Start);
    assert!(b.in_flight().is_some(), "clone observes the same state");
}

#[test]
fn turn_state_counts_genuine_turns() {
    let mut s = TurnState::new();
    s.apply(TurnSignal::Start);
    assert_eq!(s.in_flight(), Some(TurnId::from_u64(1)));
    s.apply(TurnSignal::Start);
    assert_eq!(s.in_flight(), Some(TurnId::from_u64(1)));
    s.apply(TurnSignal::End);
    s.apply(TurnSignal::End);
    assert_eq!(s.in_flight(), None);
    s.apply(TurnSignal::Start);
    assert_eq!(s.in_flight(), Some(TurnId::from_u64(2)));
}

#[test]
fn wrap_mode_answers_drains_and_pings_only() {
    let turn = Some(TurnId::from_u64(4));
    assert_eq!(
        wrap_reply(&drain_request(), turn),
        Some(GuestToHost::DrainAck { in_flight: turn })
    );
    assert_eq!(wrap_reply(&HostToGuest::Ping, turn), Some(GuestToHost::Pong));
    assert_eq!(wrap_reply(&HostToGuest::DrainCancel, turn), None);
    assert_eq!(wrap_reply(&HostToGuest::RunTurn { turn_id: TurnId::first() }, turn), None);
}

#[test]
fn wrap_mode_drains_from_the_tracker() {
    let tracker = TurnTracker::new();
    tracker.apply(TurnSignal::Start);
    let mut chan = PseudoChannel::new();
    chan.push_inbound(drain_request());
    assert!(serve_wrap_message(&mut chan, &tracker));
    assert!(matches!(
        chan.sent().as_slice(),
        [GuestToHost::DrainAck { in_flight: Some(_) }]
    ));
    assert!(!serve_wrap_message(&mut chan, &tracker), "the host has hung up");
    assert_eq!(chan.recv(), Err(ChannelError::Closed));
}

#[test]
fn the_wrap_command_is_taken_where_it_is_said_first() {
    let Some((cmd, cfg)) = wrap_config(
        Some(" agent --fast ".to_owned()),
        Some("other".to_owned()),
        Some("<".to_owned()),
        None,
    ) else {
        panic!("a command");
    };
    assert_eq!(cmd, "agent --fast");
    assert_eq!(cfg.start_marker, "<");
    assert_eq!(cfg.end_marker, "@@TURN_END@@");
    assert!(wrap_config(None, Some("x\n".to_owned()), None, None).is_some());
    assert!(wrap_config(Some("  ".to_owned()), Some("x".to_owned()), None, None).is_none());
    assert!(wrap_config(None, None, None, None).is_none());
}

#[test]
fn the_wrap_command_is_split_on_white_space() {
    assert_eq!(
        split_command("agent  --fast\tnow"),
        Some(("agent".to_owned(), vec!["--fast".to_owned(), "now".to_owned()]))
    );
    assert_eq!(split_command("   "), None);
}

#[test]
fn a_child_without_secrets_starts_before_any_host_connects() {
    let (mut session, step) = WrapSession::begin(false);
    assert_eq!(step, WrapStep::SpawnChild { with_secrets: false });
    assert_eq!(session.next(WrapEvent::Spawned(true)), WrapStep::Accept);
    assert_eq!(session.next(WrapEvent::Connected(false)), WrapStep::Accept);
    assert_eq!(session.next(WrapEvent::Connected(true)), WrapStep::Serve);
    assert_eq!(session.next(WrapEvent::Disconnected), WrapStep::Accept);
    assert_eq!(session.next(WrapEvent::Connected(true)), WrapStep::AnnounceResume);
    assert_eq!(session.next(WrapEvent::Announced(true)), WrapStep::Serve);
}

#[test]
fn a_child_with_secrets_waits_for_the_first_handshake() {
    let (mut session, step) = WrapSession::begin(true);
    assert_eq!(step, WrapStep::Accept);
    assert_eq!(
        session.next(WrapEvent::Connected(true)),
        WrapStep::SpawnChild { with_secrets: true }
    );
    assert_eq!(session.next(WrapEvent::Spawned(true)), WrapStep::Serve);
    let (mut failing, _) = WrapSession::begin(true);
    failing.next(WrapEvent::Connected(true));
    assert_eq!(failing.next(WrapEvent::Spawned(false)), WrapStep::Exit);
}
