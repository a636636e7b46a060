//! Turns against drains.
//!
//! The race rule says that a migration drops no turn and cuts none short. A run here drops one
//! drain somewhere into a stream of turns, drives a supervisor through the events in the order of
//! an integer clock, then resumes it and replays what was queued, as a migration does. The report
//! holds what the rule speaks of, and the rule holds of every run.

use vstd::prelude::*;

use crate::guestd::channel::{ChannelError, ChannelEvent};
use crate::guestd::guest::{Guest, GuestError, StartOutcome};
use crate::guestd::pseudo_channel;
use crate::guestd::pseudo_channel::PseudoChannel;
use crate::harness::schedule;
use crate::harness::schedule::SplitMix64;
use crate::proto::ids::{GuestdVersion, Timestamp, TurnId, VmId};
use crate::proto::vsock::{GuestToHost, HostToGuest};
use crate::time::Duration;

verus! {

/// One tick of the clock, in nanoseconds.
const TICK_NS: u64 = 1_000_000;

/// What one run showed.
#[derive(Clone, Copy, Debug, PartialEq, Eq, Structural)]
pub struct RaceReport {
    /// Turns the workload tried to start.
    pub attempted: u32,
    /// Turns that started and ended, replayed ones among them.
    pub completed: u32,
    /// The turn that the guest's answer to the drain named.
    pub ack_in_flight: Option<TurnId>,
    /// The turn that was running when that answer went out, by what the guest had reported until
    /// then.
    pub wire_in_flight: Option<TurnId>,
    /// Turns that started while the drain gate was closed.
    pub started_while_gated: u32,
}

impl RaceReport {
    /// Whether the run kept the race rule: every turn was completed, the answer to the drain named
    /// exactly the turn that was running, and none started while the drain gate was closed.
    pub open spec fn keeps_race_rule(self) -> bool {
        &&& self.completed == self.attempted
        &&& self.ack_in_flight == self.wire_in_flight
        &&& self.started_while_gated == 0
    }

    /// Whether the run kept the race rule.
    pub fn race_rule_holds(&self) -> (ok: bool)
        ensures
            ok == self.keeps_race_rule(),
    {
        self.completed == self.attempted && self.ack_in_flight == self.wire_in_flight
            && self.started_while_gated == 0
    }

    /// Whether the drain found a turn running.
    pub fn drain_hit_busy(&self) -> (busy: bool)
        ensures
            busy == (self.ack_in_flight is Some),
    {
        self.ack_in_flight.is_some()
    }
}

/// A turn's place on the clock: it runs from `start` up to, but not at, `end`.
#[derive(Clone, Copy, Debug, PartialEq, Eq, Structural)]
pub struct Turn {
    pub start: u64,
    pub end: u64,
}

/// What happens at an instant. On one tick, ends come before starts and starts before the drain:
/// a turn that ends makes room for the next, and one that starts on the drain's tick is running
/// when the drain arrives.
#[derive(Clone, Copy, Debug, PartialEq, Eq, Structural)]
enum Kind {
    End,
    Start,
    Drain,
}

/// One instant of a run.
#[derive(Clone, Copy, Debug, PartialEq, Eq, Structural)]
struct Event {
    tick: u64,
    kind: Kind,
    turn: usize,
}

// ---------------------------------------------------------------------------
// Timelines
// ---------------------------------------------------------------------------

/// Whether the turns have some length each and follow one another without overlap.
pub open spec fn sequential(turns: Seq<Turn>) -> bool {
    &&& forall|i: int| 0 <= i < turns.len() ==> (#[trigger] turns[i]).start < turns[i].end
    &&& forall|i: int, j: int|
        0 <= i < j < turns.len() ==> (#[trigger] turns[i]).end <= (#[trigger] turns[j]).start
}

/// Whether turn `i` is running at `tick`.
pub open spec fn running_at(turns: Seq<Turn>, i: int, tick: u64) -> bool {
    0 <= i < turns.len() && turns[i].start <= tick < turns[i].end
}

/// The turn that is running at `tick`. The supervisor numbers turns from zero.
pub open spec fn in_flight_at(turns: Seq<Turn>, tick: u64) -> Option<TurnId> {
    if exists|i: int| running_at(turns, i, tick) {
        Some(TurnId { index: (choose|i: int| running_at(turns, i, tick)) as u64 })
    } else {
        None
    }
}

/// The starts and ends of the turns, in order: event `2i` starts turn `i`, event `2i + 1` ends it.
spec fn bound(turns: Seq<Turn>, j: int) -> Event {
    if j % 2 == 0 {
        Event { tick: turns[j / 2].start, kind: Kind::Start, turn: (j / 2) as usize }
    } else {
        Event { tick: turns[j / 2].end, kind: Kind::End, turn: (j / 2) as usize }
    }
}

/// Whether `events` holds the starts and ends of the turns in order, with the drain at position
/// `p`, after exactly those that come at its tick or before.
spec fn timeline(turns: Seq<Turn>, drain_at: u64, events: Seq<Event>, p: int) -> bool {
    &&& events.len() == 2 * turns.len() + 1
    &&& 0 <= p <= 2 * turns.len()
    &&& events[p].kind == Kind::Drain
    &&& events[p].tick == drain_at
    &&& forall|j: int| 0 <= j < p ==> #[trigger] events[j] == bound(turns, j)
    &&& forall|j: int| p < j < events.len() ==> #[trigger] events[j] == bound(turns, j - 1)
    &&& forall|j: int|
        0 <= j < 2 * turns.len() ==> (j < p <==> (#[trigger] bound(turns, j)).tick <= drain_at)
}

/// The starts and ends of sequential turns come in order.
proof fn lemma_bounds_in_order(turns: Seq<Turn>, j: int, k: int)
    requires
        sequential(turns),
        0 <= j <= k < 2 * turns.len(),
    ensures
        bound(turns, j).tick <= bound(turns, k).tick,
{
    let a = j / 2;
    let b = k / 2;
    assert(turns[a].start < turns[a].end);
    assert(turns[b].start < turns[b].end);
    if a < b {
        assert(turns[a].end <= turns[b].start);
    }
}

/// The events of a run in the order in which they happen.
fn timeline_of(turns: &Vec<Turn>, drain_at: u64) -> (events: Vec<Event>)
    requires
        sequential(turns@),
        turns@.len() < u32::MAX,
    ensures
        exists|p: int| timeline(turns@, drain_at, events@, p),
{
    let mut events: Vec<Event> = Vec::new();
    let mut i: usize = 0;
    while i < turns.len()
        invariant
            i <= turns@.len(),
            turns@.len() < u32::MAX,
            events@.len() == 2 * i,
            forall|j: int| 0 <= j < 2 * i ==> #[trigger] events@[j] == bound(turns@, j),
        decreases turns@.len() - i,
    {
        let t = turns[i];
        events.push(Event { tick: t.start, kind: Kind::Start, turn: i });
        events.push(Event { tick: t.end, kind: Kind::End, turn: i });
        i = i + 1;
    }
    let ghost bounds = events@;
    let mut p: usize = 0;
    while p < events.len() && events[p].tick <= drain_at
        invariant
            p <= events@.len(),
            events@ == bounds,
            bounds.len() == 2 * turns@.len(),
            forall|j: int| 0 <= j < bounds.len() ==> #[trigger] bounds[j] == bound(turns@, j),
            forall|j: int| 0 <= j < p ==> (#[trigger] bound(turns@, j)).tick <= drain_at,
        decreases events@.len() - p,
    {
        proof {
            assert(bounds[p as int] == bound(turns@, p as int));
        }
        p = p + 1;
    }
    proof {
        assert forall|j: int| 0 <= j < bounds.len() implies (j < p <==> (#[trigger] bound(
            turns@,
            j,
        )).tick <= drain_at) by {
            if p <= j {
                assert(bounds[p as int] == bound(turns@, p as int));
                lemma_bounds_in_order(turns@, p as int, j);
            }
        }
    }
    events.insert(p, Event { tick: drain_at, kind: Kind::Drain, turn: usize::MAX });
    proof {
        assert forall|j: int| 0 <= j < p implies #[trigger] events@[j] == bound(turns@, j) by {
            assert(events@[j] == bounds[j]);
        }
        assert forall|j: int| p < j < events@.len() implies #[trigger] events@[j] == bound(
            turns@,
            j - 1,
        ) by {
            assert(events@[j] == bounds[j - 1]);
        }
        assert(timeline(turns@, drain_at, events@, p as int));
    }
    events
}

/// Which turn is running at the drain shows in the drain's position.
proof fn lemma_in_flight_by_position(turns: Seq<Turn>, drain_at: u64, events: Seq<Event>, p: int)
    requires
        timeline(turns, drain_at, events, p),
        sequential(turns),
    ensures
        in_flight_at(turns, drain_at) == at_position(p),
{
    assert forall|i: int| running_at(turns, i, drain_at) implies p == 2 * i + 1 by {
        assert(bound(turns, 2 * i).tick <= drain_at);
        assert(bound(turns, 2 * i + 1).tick > drain_at);
    }
    if p % 2 == 1 {
        let i = p / 2;
        assert(bound(turns, 2 * i).tick <= drain_at);
        assert(bound(turns, 2 * i + 1).tick > drain_at);
        assert(running_at(turns, i, drain_at));
    }
}

/// The turn that is running once the first `p` starts and ends have happened.
spec fn at_position(p: int) -> Option<TurnId> {
    if p % 2 == 1 {
        Some(TurnId { index: (p / 2) as u64 })
    } else {
        None
    }
}

// ---------------------------------------------------------------------------
// Reading the transcript
// ---------------------------------------------------------------------------

/// How far the reading of a transcript has come.
pub enum Reading {
    /// No answer to a drain yet; this turn was the last to start and has not ended.
    Searching(Option<TurnId>),
    /// The answer to a drain: the turn it names, and the turn that was running.
    Found(Option<TurnId>, Option<TurnId>),
}

/// The reading after one more message.
pub open spec fn read_one(reading: Reading, msg: GuestToHost) -> Reading {
    match reading {
        Reading::Found(..) => reading,
        Reading::Searching(in_flight) => match msg {
            GuestToHost::TurnStarted { turn_id, .. } => Reading::Searching(Some(turn_id)),
            GuestToHost::TurnEnded { .. } => Reading::Searching(None),
            GuestToHost::DrainAck { in_flight: acked } => Reading::Found(acked, in_flight),
            _ => reading,
        },
    }
}

/// The reading of a whole transcript.
pub open spec fn read_all(sent: Seq<GuestToHost>) -> Reading
    decreases sent.len(),
{
    if sent.len() == 0 {
        Reading::Searching(None)
    } else {
        read_one(read_all(sent.drop_last()), sent.last())
    }
}

/// What a transcript says of its first drain: the turn that the answer named, and the turn that
/// was running by the messages before it. A transcript without an answer names none.
pub open spec fn ack_of(sent: Seq<GuestToHost>) -> (Option<TurnId>, Option<TurnId>) {
    match read_all(sent) {
        Reading::Found(acked, in_flight) => (acked, in_flight),
        Reading::Searching(in_flight) => (None, in_flight),
    }
}

/// A reading that has found its answer keeps it.
proof fn lemma_found_stays(sent: Seq<GuestToHost>, i: int)
    requires
        0 <= i <= sent.len(),
        read_all(sent.take(i)) is Found,
    ensures
        read_all(sent) == read_all(sent.take(i)),
    decreases sent.len() - i,
{
    if i == sent.len() {
        assert(sent.take(i) =~= sent);
    } else {
        assert(sent.take(i + 1).drop_last() =~= sent.take(i));
        lemma_found_stays(sent, i + 1);
    }
}

/// The turn that the first answer to a drain named, and the turn that was running by the messages
/// before it.
pub fn read_ack(sent: &Vec<GuestToHost>) -> (acks: (Option<TurnId>, Option<TurnId>))
    ensures
        acks == ack_of(sent@),
{
    let mut in_flight: Option<TurnId> = None;
    let mut i: usize = 0;
    proof {
        assert(sent@.take(0) =~= Seq::<GuestToHost>::empty());
    }
    while i < sent.len()
        invariant
            i <= sent@.len(),
            read_all(sent@.take(i as int)) == Reading::Searching(in_flight),
        decreases sent@.len() - i,
    {
        proof {
            assert(sent@.take(i + 1).drop_last() =~= sent@.take(i as int));
            assert(sent@.take(i + 1).last() == sent@[i as int]);
        }
        match &sent[i] {
            GuestToHost::TurnStarted { turn_id, .. } => {
                in_flight = Some(*turn_id);
            },
            GuestToHost::TurnEnded { .. } => {
                in_flight = None;
            },
            GuestToHost::DrainAck { in_flight: acked } => {
                proof {
                    lemma_found_stays(sent@, i + 1);
                }
                return (*acked, in_flight);
            },
            _ => {},
        }
        i = i + 1;
    }
    proof {
        assert(sent@.take(i as int) =~= sent@);
    }
    (None, in_flight)
}

/// The reading of what a channel has sent.
spec fn reading(log: Seq<ChannelEvent>) -> Reading {
    read_all(pseudo_channel::messages_sent(log))
}

/// One more send is one more message read.
proof fn lemma_reading_push(log: Seq<ChannelEvent>, msg: GuestToHost, outcome: Result<(), ChannelError>)
    ensures
        reading(log.push(ChannelEvent::Sent { msg, outcome })) == read_one(reading(log), msg),
{
    let next = log.push(ChannelEvent::Sent { msg, outcome });
    assert(next.drop_last() =~= log);
    let sent = pseudo_channel::messages_sent(log);
    assert(pseudo_channel::messages_sent(next) == sent.push(msg));
    assert(sent.push(msg).drop_last() =~= sent);
}

// ---------------------------------------------------------------------------
// A run
// ---------------------------------------------------------------------------

/// How many of the starts and ends have happened after `j` events, the drain being event `p`.
spec fn bounds_done(j: int, p: int) -> int {
    if j <= p {
        j
    } else {
        j - 1
    }
}

/// How many turns have begun after `j` events.
spec fn turns_begun(j: int, p: int) -> int {
    if j <= p {
        (j + 1) / 2
    } else {
        (p + 1) / 2
    }
}

/// The turn running after `j` events.
spec fn running_after(j: int, p: int) -> Option<TurnId> {
    if j <= p {
        at_position(j)
    } else if j == p + 1 {
        at_position(p)
    } else {
        None
    }
}

/// How many turns have ended after `j` events.
spec fn turns_ended(j: int, p: int) -> int {
    if j <= p {
        j / 2
    } else if j == p + 1 {
        p / 2
    } else {
        (p + 1) / 2
    }
}

/// Where a run stands after `j` events: what the supervisor holds, which turns have begun, and
/// what the transcript reads so far.
spec fn standing(
    g: Guest<PseudoChannel>,
    started: Seq<Option<TurnId>>,
    turns: Seq<Turn>,
    j: int,
    p: int,
) -> bool {
    &&& g.state().gated == (j > p)
    &&& g.state().next_turn.index == turns_begun(j, p)
    &&& g.state().in_flight == running_after(j, p)
    &&& g.state().queued == (bounds_done(j, p) + 1) / 2 - turns_begun(j, p)
    &&& started.len() == turns.len()
    &&& forall|i: int|
        0 <= i < started.len() ==> #[trigger] started[i] == (if i < turns_begun(j, p) {
            Some(TurnId { index: i as u64 })
        } else {
            None
        })
    &&& reading(g.wire()) == if j <= p {
        Reading::Searching(running_after(j, p))
    } else {
        Reading::Found(at_position(p), at_position(p))
    }
}

/// The instant of a tick, or the last instant there is where the tick lies past it.
fn instant(tick: u64) -> (ts: Timestamp)
    ensures
        ts.nanos == if tick * TICK_NS <= u64::MAX {
            tick * TICK_NS
        } else {
            u64::MAX as int
        },
{
    match tick.checked_mul(TICK_NS) {
        Some(nanos) => Timestamp::from_nanos(nanos),
        None => Timestamp::from_nanos(u64::MAX),
    }
}

/// The latest tick that a run of these turns and this drain reaches, before the backlog replays.
pub open spec fn last_tick(turns: Seq<Turn>, drain_at: u64) -> nat {
    let last_end = if turns.len() == 0 { 0 } else { turns.last().end };
    if drain_at >= last_end {
        drain_at as nat
    } else {
        last_end as nat
    }
}

/// Runs one drain against these turns and reports what happened. Whatever the turns and wherever
/// the drain falls, the race rule holds, and the turn named is the one that was running.
pub fn race(turns: &Vec<Turn>, drain_at: u64) -> (r: Result<RaceReport, GuestError>)
    requires
        sequential(turns@),
        turns@.len() < u32::MAX,
        last_tick(turns@, drain_at) + 2 * turns@.len() + 2 <= u64::MAX,
    ensures
        r matches Ok(report) && report == (RaceReport {
            attempted: turns@.len() as u32,
            completed: turns@.len() as u32,
            ack_in_flight: in_flight_at(turns@, drain_at),
            wire_in_flight: in_flight_at(turns@, drain_at),
            started_while_gated: 0,
        }),
{
    let events = timeline_of(turns, drain_at);
    let ghost p = choose|p: int| timeline(turns@, drain_at, events@, p);
    proof {
        lemma_in_flight_by_position(turns@, drain_at, events@, p);
    }
    let mut g = Guest::new(VmId::new(), GuestdVersion::new("0.1.0"), PseudoChannel::new());
    let mut started: Vec<Option<TurnId>> = Vec::new();
    while started.len() < turns.len()
        invariant
            started@.len() <= turns@.len(),
            forall|i: int| 0 <= i < started@.len() ==> #[trigger] started@[i] is None,
        decreases turns@.len() - started@.len(),
    {
        started.push(None);
    }
    let mut drained: bool = false;
    let mut completed: u32 = 0;
    let mut started_while_gated: u32 = 0;
    let mut j: usize = 0;
    while j < events.len()
        invariant
            j <= events@.len(),
            turns@.len() < u32::MAX,
            timeline(turns@, drain_at, events@, p),
            standing(g, started@, turns@, j as int, p),
            drained == (j > p),
            completed == turns_ended(j as int, p),
            started_while_gated == 0,
        decreases events@.len() - j,
    {
        let e = events[j];
        let now = instant(e.tick);
        let ghost wire = g.wire();
        proof {
            if j < p {
                assert(e == bound(turns@, j as int));
            } else if j > p {
                assert(e == bound(turns@, j - 1));
            }
        }
        match e.kind {
            Kind::Start => {
                let outcome = g.start_turn(now);
                proof {
                    if j < p {
                        let started_turn = GuestToHost::TurnStarted {
                            turn_id: TurnId { index: e.turn as u64 },
                            ts: now,
                        };
                        lemma_reading_push(wire, started_turn, g.wire().last().send_outcome());
                    }
                }
                match outcome {
                    Ok(StartOutcome::Started(id)) => {
                        if drained {
                            started_while_gated = started_while_gated + 1;
                        }
                        started.set(e.turn, Some(id));
                    },
                    Ok(StartOutcome::Queued) => {},
                    Err(error) => {
                        return Err(error);
                    },
                }
            },
            Kind::End => {
                if let Some(id) = started[e.turn] {
                    if g.in_flight() == Some(id) {
                        let outcome = g.end_turn(now);
                        proof {
                            let ended = GuestToHost::TurnEnded { turn_id: id, ts: now };
                            lemma_reading_push(wire, ended, g.wire().last().send_outcome());
                        }
                        match outcome {
                            Ok(()) => {},
                            Err(error) => {
                                return Err(error);
                            },
                        }
                        completed = completed + 1;
                    }
                }
            },
            Kind::Drain => {
                let ghost ack = GuestToHost::DrainAck { in_flight: g.state().in_flight };
                let outcome = g.handle(
                    HostToGuest::DrainRequest { deadline: Duration::from_millis(500) },
                    now,
                );
                proof {
                    lemma_reading_push(wire, ack, g.wire().last().send_outcome());
                }
                match outcome {
                    Ok(()) => {},
                    Err(error) => {
                        return Err(error);
                    },
                }
                drained = true;
            },
        }
        j = j + 1;
    }
    let last_end: u64 = if turns.len() == 0 {
        0
    } else {
        turns[turns.len() - 1].end
    };
    let mut t: u64 = if drain_at >= last_end {
        drain_at + 1
    } else {
        last_end + 1
    };
    let ghost wire = g.wire();
    let resumed_at = instant(t);
    let outcome = g.resume(resumed_at);
    proof {
        let resumed = GuestToHost::Resumed { ts: resumed_at };
        lemma_reading_push(wire, resumed, g.wire().last().send_outcome());
    }
    match outcome {
        Ok(()) => {},
        Err(error) => {
            return Err(error);
        },
    }
    loop
        invariant_except_break
            t + 2 * g.state().queued + 1 <= u64::MAX,
        invariant
            turns@.len() < u32::MAX,
            !g.state().gated,
            g.state().in_flight is None,
            g.state().queued + completed == turns@.len(),
            g.state().next_turn.index == completed,
            reading(g.wire()) == Reading::Found(at_position(p), at_position(p)),
        ensures
            completed == turns@.len(),
            reading(g.wire()) == Reading::Found(at_position(p), at_position(p)),
        decreases g.state().queued,
    {
        t = t + 1;
        let now = instant(t);
        let ghost wire = g.wire();
        match g.replay_next(now) {
            Ok(Some(id)) => {
                proof {
                    let began = GuestToHost::TurnStarted { turn_id: id, ts: now };
                    lemma_reading_push(wire, began, g.wire().last().send_outcome());
                }
            },
            Ok(None) => {
                break;
            },
            Err(error) => {
                return Err(error);
            },
        }
        t = t + 1;
        let end = instant(t);
        let ghost wire = g.wire();
        let ghost id = g.state().in_flight->0;
        let outcome = g.end_turn(end);
        proof {
            let ended = GuestToHost::TurnEnded { turn_id: id, ts: end };
            lemma_reading_push(wire, ended, g.wire().last().send_outcome());
        }
        match outcome {
            Ok(()) => {},
            Err(error) => {
                return Err(error);
            },
        }
        completed = completed + 1;
    }
    let (ack_in_flight, wire_in_flight) = read_ack(g.channel().sent());
    Ok(
        RaceReport {
            attempted: turns.len() as u32,
            completed,
            ack_in_flight,
            wire_in_flight,
            started_while_gated,
        },
    )
}

// ---------------------------------------------------------------------------
// Seeded runs
// ---------------------------------------------------------------------------

/// How many turns a seed asks for: three to eight.
pub open spec fn turn_count(seed: u64) -> nat {
    3 + schedule::draw(seed, 0) as nat % 6
}

/// The idle ticks before turn `i`.
pub open spec fn gap_before(seed: u64, i: nat) -> nat {
    schedule::draw(seed, 1 + 2 * i) as nat % 120
}

/// The ticks that turn `i` runs for.
pub open spec fn turn_length(seed: u64, i: nat) -> nat {
    20 + schedule::draw(seed, 2 + 2 * i) as nat % 150
}

/// The tick at which the first `n` turns are over.
pub open spec fn end_of(seed: u64, n: nat) -> nat
    decreases n,
{
    if n == 0 {
        0
    } else {
        let i = (n - 1) as nat;
        end_of(seed, i) + gap_before(seed, i) + turn_length(seed, i)
    }
}

/// The turns of a seed.
pub open spec fn turns_of(seed: u64) -> Seq<Turn> {
    Seq::new(turn_count(seed), |i: int| turn_of(seed, i as nat))
}

/// Turn `i` of a seed.
pub open spec fn turn_of(seed: u64, i: nat) -> Turn {
    Turn {
        start: (end_of(seed, i) + gap_before(seed, i)) as u64,
        end: end_of(seed, i + 1) as u64,
    }
}

/// The tick of the drain of a seed, somewhere before the last turn is over.
pub open spec fn drain_of(seed: u64) -> u64 {
    let k = turn_count(seed);
    (schedule::draw(seed, 1 + 2 * k) as nat % end_of(seed, k)) as u64
}

/// Turns take at most 288 ticks each, and later turns end later.
proof fn lemma_end_of(seed: u64, m: nat, n: nat)
    requires
        m <= n,
    ensures
        end_of(seed, m) <= end_of(seed, n) <= 288 * n,
        m < n ==> end_of(seed, m) + gap_before(seed, m) + 20 <= end_of(seed, n),
    decreases n,
{
    if n > 0 {
        let i = (n - 1) as nat;
        if m < n {
            lemma_end_of(seed, m, i);
        } else {
            lemma_end_of(seed, i, i);
        }
    }
}

/// A seed's turns are sequential, and there is room after them on the clock.
proof fn lemma_turns_of(seed: u64)
    ensures
        sequential(turns_of(seed)),
        end_of(seed, turn_count(seed)) <= 288 * 8,
        end_of(seed, turn_count(seed)) > 0,
        forall|i: int|
            0 <= i < turn_count(seed) ==> (#[trigger] turns_of(seed)[i]).end <= 288 * 8,
{
    let k = turn_count(seed);
    let turns = turns_of(seed);
    lemma_end_of(seed, 0, k);
    assert forall|i: int| 0 <= i < turns.len() implies (#[trigger] turns[i]).start < turns[i].end
        && turns[i].end <= 288 * 8 by {
        lemma_end_of(seed, (i + 1) as nat, k);
    }
    assert forall|i: int, j: int| 0 <= i < j < turns.len() implies (#[trigger] turns[i]).end <= (
    #[trigger] turns[j]).start by {
        lemma_end_of(seed, (i + 1) as nat, j as nat);
        lemma_end_of(seed, (j + 1) as nat, k);
    }
}

/// The turns and the drain of a seed.
fn generate(rng: &mut SplitMix64) -> (out: (Vec<Turn>, u64))
    ensures
        out.0@ == turns_of(old(rng)@),
        out.1 == drain_of(old(rng)@),
{
    let ghost seed = rng@;
    let k: usize = 3 + (rng.next_u64() % 6) as usize;
    let mut turns: Vec<Turn> = Vec::new();
    let mut cursor: u64 = 0;
    proof {
        assert(schedule::steps(seed, 0) == seed);
        assert(schedule::steps(seed, 1) == schedule::step(seed));
    }
    while turns.len() < k
        invariant
            k == turn_count(seed),
            turns@.len() <= k,
            rng@ == schedule::steps(seed, 1 + 2 * turns@.len()),
            cursor == end_of(seed, turns@.len()),
            cursor <= 288 * turns@.len(),
            forall|i: int|
                0 <= i < turns@.len() ==> #[trigger] turns@[i] == turn_of(seed, i as nat),
        decreases k - turns@.len(),
    {
        let ghost n = turns@.len();
        let gap: u64 = rng.next_u64() % 120;
        let dur: u64 = 20 + rng.next_u64() % 150;
        let start: u64 = cursor + gap;
        let end: u64 = start + dur;
        proof {
            assert(schedule::steps(seed, 2 + 2 * n) == schedule::step(
                schedule::steps(seed, 1 + 2 * n),
            ));
            assert(schedule::steps(seed, 3 + 2 * n) == schedule::step(
                schedule::steps(seed, 2 + 2 * n),
            ));
        }
        turns.push(Turn { start, end });
        cursor = end;
    }
    proof {
        lemma_turns_of(seed);
        assert(turns@ =~= turns_of(seed));
        let k = turn_count(seed);
        assert(schedule::steps(seed, 2 + 2 * k) == schedule::step(schedule::steps(seed, 1 + 2 * k)));
    }
    let span: u64 = if cursor > 1 {
        cursor
    } else {
        1
    };
    let drain_at: u64 = rng.next_u64() % span;
    (turns, drain_at)
}

/// Runs the turns and the drain that a seed determines. Every run succeeds, keeps the race rule,
/// and is determined by its seed.
pub fn simulate(seed: u64) -> (r: Result<RaceReport, GuestError>)
    ensures
        r matches Ok(report) && {
            &&& report == (RaceReport {
                attempted: turn_count(seed) as u32,
                completed: turn_count(seed) as u32,
                ack_in_flight: in_flight_at(turns_of(seed), drain_of(seed)),
                wire_in_flight: in_flight_at(turns_of(seed), drain_of(seed)),
                started_while_gated: 0,
            })
            &&& report.keeps_race_rule()
        },
{
    let mut rng = SplitMix64::new(seed);
    let (turns, drain_at) = generate(&mut rng);
    proof {
        lemma_turns_of(seed);
        assert(turns@.last() == turns_of(seed)[turns@.len() - 1]);
    }
    race(&turns, drain_at)
}

// ---------------------------------------------------------------------------
// Both outcomes occur
// ---------------------------------------------------------------------------

/// The way from a state of the generator to the number that it yields.
proof fn lemma_mixed(s: u64, x: u64, a: u64, y: u64, b: u64, n: u64)
    requires
        s ^ (s >> 30) == x,
        x.wrapping_mul(0xBF58_476D_1CE4_E5B9) == a,
        a ^ (a >> 27) == y,
        y.wrapping_mul(0x94D0_49BB_1331_11EB) == b,
        b ^ (b >> 31) == n,
    ensures
        schedule::mix(s) == n,
{
    reveal(schedule::mix);
}

/// What the generator yields first from the seed 31.
proof fn lemma_draws_of_31()
    ensures
        schedule::draw(31, 0) == 0xD759_9677_879F_EAEA,
        schedule::draw(31, 1) == 0xBCD4_DD25_43BF_3FD8,
        schedule::draw(31, 2) == 0x813D_DE28_2518_D4D5,
        schedule::draw(31, 3) == 0x8A62_B606_6824_196D,
        schedule::draw(31, 4) == 0x98B9_6165_34C8_4BB1,
        schedule::draw(31, 5) == 0x53F1_2849_0F6A_B701,
        schedule::draw(31, 6) == 0x64CC_5C57_A451_1D5C,
        schedule::draw(31, 7) == 0x9D3B_1870_1655_846F,
{
    assert({
        &&& 0x9E37_79B9_7F4A_7C34u64 ^ (0x9E37_79B9_7F4A_7C34u64 >> 30u64) == 0x9E37_79BB_0797_9AD1u64
        &&& 0x43B7_7FE4_D82F_D609u64 ^ (0x43B7_7FE4_D82F_D609u64 >> 27u64) == 0x43B7_7FEC_AEC0_2A92u64
        &&& 0xD759_9676_292C_C606u64 ^ (0xD759_9676_292C_C606u64 >> 31u64) == 0xD759_9677_879F_EAEAu64
        &&& 0x3C6E_F372_FE94_F849u64 ^ (0x3C6E_F372_FE94_F849u64 >> 30u64) == 0x3C6E_F372_0F2F_3582u64
        &&& 0x28D2_7B42_13C2_F4F2u64 ^ (0x28D2_7B42_13C2_F4F2u64 >> 27u64) == 0x28D2_7B47_098D_9CB0u64
        &&& 0xBCD4_DD24_3A16_8590u64 ^ (0xBCD4_DD24_3A16_8590u64 >> 31u64) == 0xBCD4_DD25_43BF_3FD8u64
        &&& 0xDAA6_6D2C_7DDF_745Eu64 ^ (0xDAA6_6D2C_7DDF_745Eu64 >> 30u64) == 0xDAA6_6D2F_1746_C0EFu64
        &&& 0x7236_EDBB_1593_37B7u64 ^ (0x7236_EDBB_1593_37B7u64 >> 27u64) == 0x7236_EDB5_534E_80D5u64
        &&& 0x813D_DE29_2763_6887u64 ^ (0x813D_DE29_2763_6887u64 >> 31u64) == 0x813D_DE28_2518_D4D5u64
        &&& 0x78DD_E6E5_FD29_F073u64 ^ (0x78DD_E6E5_FD29_F073u64 >> 30u64) == 0x78DD_E6E4_1E5E_6BE4u64
        &&& 0xBEE3_75FD_6FCE_EBC4u64 ^ (0xBEE3_75FD_6FCE_EBC4u64 >> 27u64) == 0xBEE3_75EA_B3A0_5469u64
        &&& 0x8A62_B607_7CE1_7563u64 ^ (0x8A62_B607_7CE1_7563u64 >> 31u64) == 0x8A62_B606_6824_196Du64
        &&& 0x1715_609F_7C74_6C88u64 ^ (0x1715_609F_7C74_6C88u64 >> 30u64) == 0x1715_609F_2021_EEF5u64
        &&& 0x4A0E_3069_317A_D80Du64 ^ (0x4A0E_3069_317A_D80Du64 >> 27u64) == 0x4A0E_3060_70BC_D52Bu64
        &&& 0x98B9_6164_05BA_8979u64 ^ (0x98B9_6164_05BA_8979u64 >> 31u64) == 0x98B9_6165_34C8_4BB1u64
        &&& 0xB54C_DA58_FBBE_E89Du64 ^ (0xB54C_DA58_FBBE_E89Du64 >> 30u64) == 0xB54C_DA5A_2E8D_81FEu64
        &&& 0x5BE3_3235_C7C3_268Eu64 ^ (0x5BE3_3235_C7C3_268Eu64 >> 27u64) == 0x5BE3_323E_BBA5_6036u64
        &&& 0x53F1_2849_A888_E792u64 ^ (0x53F1_2849_A888_E792u64 >> 31u64) == 0x53F1_2849_0F6A_B701u64
        &&& 0x5384_5412_7B09_64B2u64 ^ (0x5384_5412_7B09_64B2u64 >> 30u64) == 0x5384_5413_3518_34FBu64
        &&& 0x8208_0B99_A96E_D063u64 ^ (0x8208_0B99_A96E_D063u64 >> 27u64) == 0x8208_0B89_E86F_A356u64
        &&& 0x64CC_5C57_6DC9_A5F2u64 ^ (0x64CC_5C57_6DC9_A5F2u64 >> 31u64) == 0x64CC_5C57_A451_1D5Cu64
        &&& 0xF1BB_CDCB_FA53_E0C7u64 ^ (0xF1BB_CDCB_FA53_E0C7u64 >> 30u64) == 0xF1BB_CDC8_3CBC_D7E8u64
        &&& 0x68CF_D99E_7C3A_8EA8u64 ^ (0x68CF_D99E_7C3A_8EA8u64 >> 27u64) == 0x68CF_D993_65C1_BD67u64
        &&& 0x9D3B_1871_2C23_B48Du64 ^ (0x9D3B_1871_2C23_B48Du64 >> 31u64) == 0x9D3B_1870_1655_846Fu64
    }) by (bit_vector);
    assert(schedule::steps(31, 0) == 31);
    assert(schedule::steps(31, 1) == 0x9E37_79B9_7F4A_7C34);
    lemma_mixed(
        0x9E37_79B9_7F4A_7C34,
        0x9E37_79BB_0797_9AD1,
        0x43B7_7FE4_D82F_D609,
        0x43B7_7FEC_AEC0_2A92,
        0xD759_9676_292C_C606,
        0xD759_9677_879F_EAEA,
    );
    assert(schedule::steps(31, 2) == 0x3C6E_F372_FE94_F849);
    lemma_mixed(
        0x3C6E_F372_FE94_F849,
        0x3C6E_F372_0F2F_3582,
        0x28D2_7B42_13C2_F4F2,
        0x28D2_7B47_098D_9CB0,
        0xBCD4_DD24_3A16_8590,
        0xBCD4_DD25_43BF_3FD8,
    );
    assert(schedule::steps(31, 3) == 0xDAA6_6D2C_7DDF_745E);
    lemma_mixed(
        0xDAA6_6D2C_7DDF_745E,
        0xDAA6_6D2F_1746_C0EF,
        0x7236_EDBB_1593_37B7,
        0x7236_EDB5_534E_80D5,
        0x813D_DE29_2763_6887,
        0x813D_DE28_2518_D4D5,
    );
    assert(schedule::steps(31, 4) == 0x78DD_E6E5_FD29_F073);
    lemma_mixed(
        0x78DD_E6E5_FD29_F073,
        0x78DD_E6E4_1E5E_6BE4,
        0xBEE3_75FD_6FCE_EBC4,
        0xBEE3_75EA_B3A0_5469,
        0x8A62_B607_7CE1_7563,
        0x8A62_B606_6824_196D,
    );
    assert(schedule::steps(31, 5) == 0x1715_609F_7C74_6C88);
    lemma_mixed(
        0x1715_609F_7C74_6C88,
        0x1715_609F_2021_EEF5,
        0x4A0E_3069_317A_D80D,
        0x4A0E_3060_70BC_D52B,
        0x98B9_6164_05BA_8979,
        0x98B9_6165_34C8_4BB1,
    );
    assert(schedule::steps(31, 6) == 0xB54C_DA58_FBBE_E89D);
    lemma_mixed(
        0xB54C_DA58_FBBE_E89D,
        0xB54C_DA5A_2E8D_81FE,
        0x5BE3_3235_C7C3_268E,
        0x5BE3_323E_BBA5_6036,
        0x53F1_2849_A888_E792,
        0x53F1_2849_0F6A_B701,
    );
    assert(schedule::steps(31, 7) == 0x5384_5412_7B09_64B2);
    lemma_mixed(
        0x5384_5412_7B09_64B2,
        0x5384_5413_3518_34FB,
        0x8208_0B99_A96E_D063,
        0x8208_0B89_E86F_A356,
        0x64CC_5C57_6DC9_A5F2,
        0x64CC_5C57_A451_1D5C,
    );
    assert(schedule::steps(31, 8) == 0xF1BB_CDCB_FA53_E0C7);
    lemma_mixed(
        0xF1BB_CDCB_FA53_E0C7,
        0xF1BB_CDC8_3CBC_D7E8,
        0x68CF_D99E_7C3A_8EA8,
        0x68CF_D993_65C1_BD67,
        0x9D3B_1871_2C23_B48D,
        0x9D3B_1870_1655_846F,
    );
}

/// The turns and the drain of the seed 31.
proof fn lemma_run_of_31()
    ensures
        turn_count(31) == 3,
        turn_of(31, 0) == (Turn { start: 40, end: 173 }),
        drain_of(31) == 95,
{
    lemma_draws_of_31();
    assert(end_of(31, 0) == 0);
    assert(end_of(31, 1) == 173);
    assert(end_of(31, 2) == 355);
    assert(end_of(31, 3) == 496);
}

/// What the generator yields first from the seed 33.
proof fn lemma_draws_of_33()
    ensures
        schedule::draw(33, 0) == 0x2C0E_0FED_BE22_18A8,
        schedule::draw(33, 1) == 0x1342_6875_9688_C202,
        schedule::draw(33, 2) == 0x4C54_0E1A_B04E_72E1,
        schedule::draw(33, 3) == 0x28B4_2395_930A_C897,
        schedule::draw(33, 4) == 0xAFFF_693E_885A_C9F9,
        schedule::draw(33, 5) == 0x13BA_CA2B_D37A_2558,
        schedule::draw(33, 6) == 0x404A_BC5A_FD53_2397,
        schedule::draw(33, 7) == 0xC857_C50E_0418_1F75,
{
    assert({
        &&& 0x9E37_79B9_7F4A_7C36u64 ^ (0x9E37_79B9_7F4A_7C36u64 >> 30u64) == 0x9E37_79BB_0797_9AD3u64
        &&& 0xC268_0EBF_11F9_A17Bu64 ^ (0xC268_0EBF_11F9_A17Bu64 >> 27u64) == 0xC268_0EA7_5CF8_7699u64
        &&& 0x2C0E_0FED_E63E_0773u64 ^ (0x2C0E_0FED_E63E_0773u64 >> 31u64) == 0x2C0E_0FED_BE22_18A8u64
        &&& 0x3C6E_F372_FE94_F84Bu64 ^ (0x3C6E_F372_FE94_F84Bu64 >> 30u64) == 0x3C6E_F372_0F2F_3580u64
        &&& 0xAA21_EC67_D9F9_2980u64 ^ (0xAA21_EC67_D9F9_2980u64 >> 27u64) == 0xAA21_EC72_9DC4_A57Bu64
        &&& 0x1342_6875_B00C_12E9u64 ^ (0x1342_6875_B00C_12E9u64 >> 31u64) == 0x1342_6875_9688_C202u64
        &&& 0xDAA6_6D2C_7DDF_7460u64 ^ (0xDAA6_6D2C_7DDF_7460u64 >> 30u64) == 0xDAA6_6D2F_1746_C0D1u64
        &&& 0x05DE_8EF1_B2C0_4C09u64 ^ (0x05DE_8EF1_B2C0_4C09u64 >> 27u64) == 0x05DE_8EF1_0911_923Fu64
        &&& 0x4C54_0E1A_28E6_6ED5u64 ^ (0x4C54_0E1A_28E6_6ED5u64 >> 31u64) == 0x4C54_0E1A_B04E_72E1u64
        &&& 0x78DD_E6E5_FD29_F075u64 ^ (0x78DD_E6E5_FD29_F075u64 >> 30u64) == 0x78DD_E6E4_1E5E_6BE2u64
        &&& 0x4032_E723_3605_2052u64 ^ (0x4032_E723_3605_2052u64 >> 27u64) == 0x4032_E72B_3059_C434u64
        &&& 0x28B4_2395_C262_8FBCu64 ^ (0x28B4_2395_C262_8FBCu64 >> 31u64) == 0x28B4_2395_930A_C897u64
        &&& 0x1715_609F_7C74_6C8Au64 ^ (0x1715_609F_7C74_6C8Au64 >> 30u64) == 0x1715_609F_2021_EEF7u64
        &&& 0xC8BE_BF43_6B44_A37Fu64 ^ (0xC8BE_BF43_6B44_A37Fu64 >> 27u64) == 0xC8BE_BF5A_7C93_4B12u64
        &&& 0xAFFF_693F_D7A4_1B86u64 ^ (0xAFFF_693F_D7A4_1B86u64 >> 31u64) == 0xAFFF_693E_885A_C9F9u64
        &&& 0xB54C_DA58_FBBE_E89Fu64 ^ (0xB54C_DA58_FBBE_E89Fu64 >> 30u64) == 0xB54C_DA5A_2E8D_81FCu64
        &&& 0xDD32_A35B_8DF9_5B1Cu64 ^ (0xDD32_A35B_8DF9_5B1Cu64 >> 27u64) == 0xDD32_A340_2BAD_306Du64
        &&& 0x13BA_CA2B_F40F_B10Fu64 ^ (0x13BA_CA2B_F40F_B10Fu64 >> 31u64) == 0x13BA_CA2B_D37A_2558u64
        &&& 0x5384_5412_7B09_64B4u64 ^ (0x5384_5412_7B09_64B4u64 >> 30u64) == 0x5384_5413_3518_34FDu64
        &&& 0x00B8_9A73_E338_9BD5u64 ^ (0x00B8_9A73_E338_9BD5u64 >> 27u64) == 0x00B8_9A73_F42B_D5A9u64
        &&& 0x404A_BC5A_7DC6_5B23u64 ^ (0x404A_BC5A_7DC6_5B23u64 >> 31u64) == 0x404A_BC5A_FD53_2397u64
        &&& 0xF1BB_CDCB_FA53_E0C9u64 ^ (0xF1BB_CDCB_FA53_E0C9u64 >> 30u64) == 0xF1BB_CDC8_3CBC_D7E6u64
        &&& 0xEA1F_4AC4_4270_C336u64 ^ (0xEA1F_4AC4_4270_C336u64 >> 27u64) == 0xEA1F_4AD9_0199_9BBEu64
        &&& 0xC857_C50F_94B7_956Au64 ^ (0xC857_C50F_94B7_956Au64 >> 31u64) == 0xC857_C50E_0418_1F75u64
    }) by (bit_vector);
    assert(schedule::steps(33, 0) == 33);
    assert(schedule::steps(33, 1) == 0x9E37_79B9_7F4A_7C36);
    lemma_mixed(
        0x9E37_79B9_7F4A_7C36,
        0x9E37_79BB_0797_9AD3,
        0xC268_0EBF_11F9_A17B,
        0xC268_0EA7_5CF8_7699,
        0x2C0E_0FED_E63E_0773,
        0x2C0E_0FED_BE22_18A8,
    );
    assert(schedule::steps(33, 2) == 0x3C6E_F372_FE94_F84B);
    lemma_mixed(
        0x3C6E_F372_FE94_F84B,
        0x3C6E_F372_0F2F_3580,
        0xAA21_EC67_D9F9_2980,
        0xAA21_EC72_9DC4_A57B,
        0x1342_6875_B00C_12E9,
        0x1342_6875_9688_C202,
    );
    assert(schedule::steps(33, 3) == 0xDAA6_6D2C_7DDF_7460);
    lemma_mixed(
        0xDAA6_6D2C_7DDF_7460,
        0xDAA6_6D2F_1746_C0D1,
        0x05DE_8EF1_B2C0_4C09,
        0x05DE_8EF1_0911_923F,
        0x4C54_0E1A_28E6_6ED5,
        0x4C54_0E1A_B04E_72E1,
    );
    assert(schedule::steps(33, 4) == 0x78DD_E6E5_FD29_F075);
    lemma_mixed(
        0x78DD_E6E5_FD29_F075,
        0x78DD_E6E4_1E5E_6BE2,
        0x4032_E723_3605_2052,
        0x4032_E72B_3059_C434,
        0x28B4_2395_C262_8FBC,
        0x28B4_2395_930A_C897,
    );
    assert(schedule::steps(33, 5) == 0x1715_609F_7C74_6C8A);
    lemma_mixed(
        0x1715_609F_7C74_6C8A,
        0x1715_609F_2021_EEF7,
        0xC8BE_BF43_6B44_A37F,
        0xC8BE_BF5A_7C93_4B12,
        0xAFFF_693F_D7A4_1B86,
        0xAFFF_693E_885A_C9F9,
    );
    assert(schedule::steps(33, 6) == 0xB54C_DA58_FBBE_E89F);
    lemma_mixed(
        0xB54C_DA58_FBBE_E89F,
        0xB54C_DA5A_2E8D_81FC,
        0xDD32_A35B_8DF9_5B1C,
        0xDD32_A340_2BAD_306D,
        0x13BA_CA2B_F40F_B10F,
        0x13BA_CA2B_D37A_2558,
    );
    assert(schedule::steps(33, 7) == 0x5384_5412_7B09_64B4);
    lemma_mixed(
        0x5384_5412_7B09_64B4,
        0x5384_5413_3518_34FD,
        0x00B8_9A73_E338_9BD5,
        0x00B8_9A73_F42B_D5A9,
        0x404A_BC5A_7DC6_5B23,
        0x404A_BC5A_FD53_2397,
    );
    assert(schedule::steps(33, 8) == 0xF1BB_CDCB_FA53_E0C9);
    lemma_mixed(
        0xF1BB_CDCB_FA53_E0C9,
        0xF1BB_CDC8_3CBC_D7E6,
        0xEA1F_4AC4_4270_C336,
        0xEA1F_4AD9_0199_9BBE,
        0xC857_C50F_94B7_956A,
        0xC857_C50E_0418_1F75,
    );
}

/// The turns and the drain of the seed 33.
proof fn lemma_run_of_33()
    ensures
        turn_count(33) == 3,
        turn_of(33, 0) == (Turn { start: 98, end: 251 }),
        drain_of(33) == 97,
{
    lemma_draws_of_33();
    assert(end_of(33, 0) == 0);
    assert(end_of(33, 1) == 251);
    assert(end_of(33, 2) == 491);
    assert(end_of(33, 3) == 542);
}

/// Whether the drain of a seed finds a turn running.
pub open spec fn hits_busy(seed: u64) -> bool {
    in_flight_at(turns_of(seed), drain_of(seed)) is Some
}

/// The runs of the seeds below 2000 exercise both outcomes: a drain that finds a turn running, and
/// one that finds none. Each of those seeds asks for three to eight turns.
pub proof fn law_both_outcomes_occur()
    ensures
        exists|seed: u64| seed < 2000 && #[trigger] hits_busy(seed),
        exists|seed: u64| seed < 2000 && !#[trigger] hits_busy(seed),
        forall|seed: u64| 3 <= #[trigger] turn_count(seed) <= 8,
{
    lemma_run_of_31();
    assert(running_at(turns_of(31), 0, drain_of(31)));
    assert(hits_busy(31));
    lemma_run_of_33();
    lemma_turns_of(33);
    assert forall|i: int| !running_at(turns_of(33), i, drain_of(33)) by {
        if running_at(turns_of(33), i, drain_of(33)) && i > 0 {
            assert(turns_of(33)[0].end <= turns_of(33)[i].start);
        }
    }
    assert(!hits_busy(33));
}

/// A turn runs from its start until its end: a drain at its start finds it, one at its end does not,
/// and one before all turns or after them finds none.
pub proof fn law_turn_runs_from_its_start(turns: Seq<Turn>, i: int, tick: u64)
    requires
        sequential(turns),
        0 <= i < turns.len() <= u64::MAX,
    ensures
        in_flight_at(turns, turns[i].start) == Some(TurnId { index: i as u64 }),
        turns[i].start <= tick < turns[i].end ==> in_flight_at(turns, tick) == Some(
            TurnId { index: i as u64 },
        ),
        in_flight_at(turns, turns[i].end) != Some(TurnId { index: i as u64 }),
        tick < turns[0].start || tick >= turns.last().end ==> in_flight_at(turns, tick) is None,
{
    assert(running_at(turns, i, turns[i].start));
    assert forall|j: int| #[trigger] running_at(turns, j, turns[i].start) implies j == i by {
        if j < i {
            assert(turns[j].end <= turns[i].start);
        } else if i < j {
            assert(turns[i].end <= turns[j].start);
        }
    }
    if turns[i].start <= tick < turns[i].end {
        assert(running_at(turns, i, tick));
        assert forall|j: int| #[trigger] running_at(turns, j, tick) implies j == i by {
            if j < i {
                assert(turns[j].end <= turns[i].start);
            } else if i < j {
                assert(turns[i].end <= turns[j].start);
            }
        }
    }
    assert(!running_at(turns, i, turns[i].end));
    if tick < turns[0].start || tick >= turns.last().end {
        assert forall|j: int| !#[trigger] running_at(turns, j, tick) by {
            if running_at(turns, j, tick) {
                if j > 0 {
                    assert(turns[0].end <= turns[j].start);
                }
                if j < turns.len() - 1 {
                    assert(turns[j].end <= turns[turns.len() - 1].start);
                }
            }
        }
    }
}

/// Of all that a guest says, the first answer to a drain counts: it is held against the turn that was
/// last started and not ended before it.
pub proof fn law_first_answer_counts(
    before: Seq<GuestToHost>,
    acked: Option<TurnId>,
    after: Seq<GuestToHost>,
)
    requires
        forall|i: int| 0 <= i < before.len() ==> !(#[trigger] before[i] is DrainAck),
    ensures
        ack_of(before.push(GuestToHost::DrainAck { in_flight: acked }) + after).0 == acked,
        ack_of(before.push(GuestToHost::DrainAck { in_flight: acked }) + after).1 == ack_of(before).1,
        ack_of(before).0 is None,
{
    lemma_searching(before);
    let ack = GuestToHost::DrainAck { in_flight: acked };
    let sent = before.push(ack);
    assert(sent.drop_last() =~= before);
    let all = sent + after;
    assert(all.take(sent.len() as int) =~= sent);
    lemma_found_stays(all, sent.len() as int);
}

/// As long as no answer came, the reading goes on.
proof fn lemma_searching(sent: Seq<GuestToHost>)
    requires
        forall|i: int| 0 <= i < sent.len() ==> !(#[trigger] sent[i] is DrainAck),
    ensures
        read_all(sent) is Searching,
    decreases sent.len(),
{
    if sent.len() > 0 {
        let init = sent.drop_last();
        assert forall|i: int| 0 <= i < init.len() implies !(#[trigger] init[i] is DrainAck) by {
            assert(init[i] == sent[i]);
        }
        lemma_searching(init);
        assert(!(sent[sent.len() - 1] is DrainAck));
    }
}

/// A turn that was started is the one that runs until one ends, and after an end none does.
pub proof fn law_wire_tells_what_runs(sent: Seq<GuestToHost>, turn_id: TurnId, ts: Timestamp)
    requires
        read_all(sent) is Searching,
    ensures
        ack_of(sent.push(GuestToHost::TurnStarted { turn_id, ts })).1 == Some(turn_id),
        ack_of(sent.push(GuestToHost::TurnEnded { turn_id, ts })).1 is None,
{
    let (started, ended) = (
        sent.push(GuestToHost::TurnStarted { turn_id, ts }),
        sent.push(GuestToHost::TurnEnded { turn_id, ts }),
    );
    assert(started.drop_last() =~= sent);
    assert(ended.drop_last() =~= sent);
}

} // verus!
