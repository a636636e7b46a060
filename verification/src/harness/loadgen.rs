//! The open-loop load.
//!
//! Each turn of a schedule begins when it is meant to, whether or not earlier turns have ended, and
//! its latency runs from that time. A workload that stalls is therefore measured as its clients feel
//! it: the turns that were planned during the stall count it in.

use vstd::multiset::Multiset;
use vstd::prelude::*;

use crate::harness::recorder;
use crate::harness::recorder::LatencyRecorder;
use crate::harness::schedule::Schedule;
use crate::time::Duration;

verus! {

/// One turn of a load.
pub ghost struct TurnRun {
    /// The turn's number.
    pub turn: u64,
    /// When it began, counted from the start of the load.
    pub begun: Duration,
    /// When it ended.
    pub ended: Duration,
}

/// A workload: runs one turn at a time and says when it ended.
pub trait TurnDriver: Sized {
    /// The turns so far, in the order in which they were asked for.
    ///
    /// This is ghost state. An implementation that is not verified cannot define it; the clauses
    /// below then say what it is relied on to do.
    closed spec fn log(&self) -> Seq<TurnRun> {
        arbitrary()
    }

    /// Runs turn `turn`, which begins at `begun`. The result is when it ends.
    fn run_turn(&mut self, turn: u64, begun: Duration) -> (ended: Duration)
        ensures
            final(self).log() == old(self).log().push(TurnRun { turn, begun, ended }),
    ;
}

/// A workload whose every turn takes the same time.
pub struct FixedLatency {
    cost: Duration,
    runs: Ghost<Seq<TurnRun>>,
}

impl FixedLatency {
    /// How long a turn takes.
    pub closed spec fn takes(&self) -> nat {
        self.cost@
    }

    /// A workload whose every turn takes `cost`.
    pub fn new(cost: Duration) -> (driver: FixedLatency)
        ensures
            driver.takes() == cost@,
            driver.log() == Seq::<TurnRun>::empty(),
    {
        FixedLatency { cost, runs: Ghost(Seq::empty()) }
    }
}

impl TurnDriver for FixedLatency {
    closed spec fn log(&self) -> Seq<TurnRun> {
        self.runs@
    }

    fn run_turn(&mut self, turn: u64, begun: Duration) -> (ended: Duration)
        ensures
            final(self).takes() == old(self).takes(),
            begun@ + old(self).takes() <= crate::time::max_nanos() ==> ended@ == begun@ + old(
                self,
            ).takes(),
    {
        let ended = begun.saturating_add(self.cost);
        self.runs = Ghost(self.runs@.push(TurnRun { turn, begun, ended }));
        ended
    }
}

/// The latencies of turns, in microseconds, each counted from when it was meant to begin. One that
/// ended before that has none.
pub open spec fn latencies(runs: Seq<TurnRun>) -> Multiset<u64>
    decreases runs.len(),
{
    if runs.len() == 0 {
        Multiset::empty()
    } else {
        let last = runs.last();
        let before = latencies(runs.drop_last());
        if last.begun@ <= last.ended@ {
            before.insert(recorder::micros((last.ended@ - last.begun@) as nat))
        } else {
            before
        }
    }
}

/// Drives a schedule: every turn begins at its intended time, in order and numbered from zero, and
/// its latency is recorded from that time.
pub fn run_load<D: TurnDriver>(schedule: &Schedule, driver: &mut D) -> (recorder: LatencyRecorder)
    ensures
        final(driver).log().len() == old(driver).log().len() + schedule@.len(),
        final(driver).log().take(old(driver).log().len() as int) == old(driver).log(),
        forall|i: int|
            0 <= i < schedule@.len() ==> {
                let run = #[trigger] final(driver).log()[old(driver).log().len() + i];
                run.turn == i && run.begun == schedule@[i]
            },
        recorder.latencies() == latencies(
            final(driver).log().skip(old(driver).log().len() as int),
        ),
{
    let times = schedule.times();
    let mut recorder = LatencyRecorder::new();
    let ghost base = driver.log();
    let ghost n = base.len() as int;
    let mut i: usize = 0;
    proof {
        assert(driver.log().take(n) =~= base);
        assert(driver.log().skip(n) =~= Seq::<TurnRun>::empty());
    }
    while i < times.len()
        invariant
            i <= times@.len(),
            times@ == schedule@,
            base == old(driver).log(),
            n == base.len(),
            driver.log().len() == n + i,
            driver.log().take(n) == base,
            forall|j: int|
                0 <= j < i ==> {
                    let run = #[trigger] driver.log()[n + j];
                    run.turn == j && run.begun == schedule@[j]
                },
            recorder.latencies() == latencies(driver.log().skip(n)),
        decreases times@.len() - i,
    {
        let ghost before = driver.log();
        let intended = times[i];
        let ended = driver.run_turn(i as u64, intended);
        let _ = recorder.record(intended, ended);
        proof {
            assert(driver.log().take(n) =~= before.take(n));
            assert(driver.log().skip(n).drop_last() =~= before.skip(n));
            assert(driver.log().skip(n).last() == driver.log()[n + i]);
            assert forall|j: int| 0 <= j < i implies {
                let run = #[trigger] driver.log()[n + j];
                run.turn == j && run.begun == schedule@[j]
            } by {
                assert(driver.log()[n + j] == before[n + j]);
            }
        }
        i = i + 1;
    }
    recorder
}

/// A stall is not hidden: where every turn takes at least `stall`, every turn is recorded, and none
/// with less.
pub proof fn law_stall_is_not_hidden(runs: Seq<TurnRun>, stall: nat)
    requires
        forall|i: int| 0 <= i < runs.len() ==> (#[trigger] runs[i]).begun@ + stall <= runs[i].ended@,
    ensures
        latencies(runs).len() == runs.len(),
        forall|v: u64| #[trigger] latencies(runs).contains(v) ==> recorder::micros(stall) <= v,
    decreases runs.len(),
{
    if runs.len() > 0 {
        let before = runs.drop_last();
        assert forall|i: int| 0 <= i < before.len() implies (#[trigger] before[i]).begun@ + stall
            <= before[i].ended@ by {
            assert(before[i] == runs[i]);
        }
        law_stall_is_not_hidden(before, stall);
        let last = runs.last();
        recorder::law_earlier_intent_longer_latency(
            last.begun@,
            (last.ended@ - stall) as nat,
            last.ended@,
        );
        assert forall|v: u64| #[trigger] latencies(runs).contains(v) implies recorder::micros(stall)
            <= v by {
            if v != recorder::micros((last.ended@ - last.begun@) as nat) {
                assert(latencies(before).contains(v));
            }
        }
    }
}

/// Every turn that ended counts with the time since it was to begin.
pub proof fn law_every_turn_counts(runs: Seq<TurnRun>, i: int)
    requires
        0 <= i < runs.len(),
        runs[i].begun@ <= runs[i].ended@,
    ensures
        latencies(runs).contains(recorder::micros((runs[i].ended@ - runs[i].begun@) as nat)),
        latencies(runs).len() <= runs.len(),
    decreases runs.len(),
{
    let init = runs.drop_last();
    lemma_no_more_than_runs(runs);
    if i < init.len() {
        assert(init[i] == runs[i]);
        law_every_turn_counts(init, i);
    }
}

/// There are no more latencies than turns.
proof fn lemma_no_more_than_runs(runs: Seq<TurnRun>)
    ensures
        latencies(runs).len() <= runs.len(),
    decreases runs.len(),
{
    if runs.len() > 0 {
        lemma_no_more_than_runs(runs.drop_last());
    }
}

} // verus!
