//! Latencies, counted from when a request was meant to be sent.
//!
//! A request's latency runs from the time for which it was planned, not from when it went out. So a
//! stall of the sender shows in the latency and is not hidden.

use vstd::multiset::Multiset;
use vstd::prelude::*;

use crate::time::Duration;

verus! {

// ---------------------------------------------------------------------------
// The histogram
// ---------------------------------------------------------------------------

/// An `hdrhistogram::Histogram` of three significant figures, whose range grows as needed.
#[verifier::external_body]
#[derive(Debug)]
pub struct Samples {
    hist: hdrhistogram::Histogram<u64>,
}

/// The values that were recorded in a histogram.
pub uninterp spec fn recorded(samples: Samples) -> Multiset<u64>;

/// `hdrhistogram::Histogram::new` with three significant figures: it accepts that many, and nothing
/// is recorded at first.
#[verifier::external_body]
fn no_samples() -> (samples: Samples)
    ensures
        recorded(samples) == Multiset::<u64>::empty(),
{
    Samples { hist: hdrhistogram::Histogram::new(3).expect("three figures are accepted") }
}

/// `hdrhistogram::Histogram::record` on a histogram whose range grows: every value is recorded.
#[verifier::external_body]
fn add_sample(samples: &mut Samples, value: u64) -> (r: Result<(), ()>)
    ensures
        r is Ok,
        recorded(*final(samples)) == recorded(*old(samples)).insert(value),
{
    samples.hist.record(value).map_err(|_| ())
}

/// `hdrhistogram::Histogram::len`: how many values were recorded, as far as that fits.
#[verifier::external_body]
fn count_samples(samples: &Samples) -> (n: u64)
    ensures
        recorded(*samples).len() <= u64::MAX ==> n == recorded(*samples).len(),
{
    samples.hist.len()
}

/// Whether `n` is the largest of `values`, to three significant figures and never less than it, or
/// zero where there are none.
pub open spec fn is_largest(values: Multiset<u64>, n: u64) -> bool {
    &&& values.len() == 0 ==> n == 0
    &&& forall|v: u64| #[trigger] values.contains(v) ==> v <= n
    &&& values.len() > 0 ==> exists|v: u64| #[trigger] values.contains(v) && n <= v + v / 1000
}

/// `hdrhistogram::Histogram::max`: zero where nothing was recorded, and otherwise the largest value,
/// to three significant figures and never less than it.
#[verifier::external_body]
fn largest_sample(samples: &Samples) -> (n: u64)
    ensures
        is_largest(recorded(*samples), n),
{
    samples.hist.max()
}

// ---------------------------------------------------------------------------
// Recording
// ---------------------------------------------------------------------------

/// Why a latency was not recorded.
#[derive(Clone, Copy, Debug, PartialEq, Eq, Structural)]
pub enum RecordError {
    /// The request was complete before it was meant to be sent: a clock or the caller is wrong.
    CompletedBeforeIntended {
        /// When it was meant to be sent.
        intended: Duration,
        /// When it was complete.
        completed: Duration,
    },
    /// The latency is beyond the histogram's range.
    OutOfRange(Duration),
}

/// A span in whole microseconds, as far as that fits.
pub open spec fn micros(nanos: nat) -> u64 {
    if nanos / 1000 <= u64::MAX {
        (nanos / 1000) as u64
    } else {
        u64::MAX
    }
}

/// A span in whole microseconds, as far as that fits.
pub fn micros_of(span: &Duration) -> (n: u64)
    ensures
        n == micros(span@),
{
    let n: u128 = span.as_micros();
    if n <= u64::MAX as u128 {
        n as u64
    } else {
        u64::MAX
    }
}

/// A summary of latencies.
#[derive(Clone, Copy, Debug, PartialEq, Eq, Structural)]
pub struct LatencyStats {
    /// How many there are.
    pub count: u64,
    /// The median.
    pub p50: Duration,
    /// The 90th percentile.
    pub p90: Duration,
    /// The 99th percentile.
    pub p99: Duration,
    /// The 99.9th percentile.
    pub p99_9: Duration,
    /// The longest.
    pub max: Duration,
}

/// The quantiles of a summary, in microseconds.
#[derive(Clone, Copy, Debug, PartialEq, Eq, Structural)]
pub struct Quantiles {
    /// The median.
    pub p50: u64,
    /// The 90th percentile.
    pub p90: u64,
    /// The 99th percentile.
    pub p99: u64,
    /// The 99.9th percentile.
    pub p99_9: u64,
}

/// Collects latencies.
#[derive(Debug)]
pub struct LatencyRecorder {
    samples: Samples,
}

impl LatencyRecorder {
    /// The latencies that were recorded, in microseconds.
    pub closed spec fn latencies(&self) -> Multiset<u64> {
        recorded(self.samples)
    }

    /// Nothing recorded yet.
    pub fn new() -> (recorder: LatencyRecorder)
        ensures
            recorder.latencies() == Multiset::<u64>::empty(),
    {
        LatencyRecorder { samples: no_samples() }
    }

    /// Records a request by when it was meant to be sent and when it was complete.
    pub fn record(&mut self, intended: Duration, completed: Duration) -> (r: Result<
        (),
        RecordError,
    >)
        ensures
            if intended@ <= completed@ {
                &&& r is Ok
                &&& final(self).latencies() == old(self).latencies().insert(
                    micros((completed@ - intended@) as nat),
                )
            } else {
                &&& r == Err::<(), RecordError>(
                    RecordError::CompletedBeforeIntended { intended, completed },
                )
                &&& final(self).latencies() == old(self).latencies()
            },
    {
        match completed.checked_sub(intended) {
            Some(latency) => self.record_latency(latency),
            None => Err(RecordError::CompletedBeforeIntended { intended, completed }),
        }
    }

    /// Records a latency.
    pub fn record_latency(&mut self, latency: Duration) -> (r: Result<(), RecordError>)
        ensures
            r is Ok,
            final(self).latencies() == old(self).latencies().insert(micros(latency@)),
    {
        match add_sample(&mut self.samples, micros_of(&latency)) {
            Ok(_) => Ok(()),
            Err(_) => Err(RecordError::OutOfRange(latency)),
        }
    }

    /// How many latencies were recorded.
    pub fn count(&self) -> (n: u64)
        ensures
            self.latencies().len() <= u64::MAX ==> n == self.latencies().len(),
    {
        count_samples(&self.samples)
    }

    /// A summary of the latencies, with the quantiles that are given.
    pub fn summary(&self, quantiles: Quantiles) -> (stats: LatencyStats)
        ensures
            self.latencies().len() <= u64::MAX ==> stats.count == self.latencies().len(),
            stats.p50@ == quantiles.p50 * 1000,
            stats.p90@ == quantiles.p90 * 1000,
            stats.p99@ == quantiles.p99 * 1000,
            stats.p99_9@ == quantiles.p99_9 * 1000,
            exists|n: u64| #[trigger]
                is_largest(self.latencies(), n) && stats.max@ == n * 1000,
    {
        let longest: u64 = largest_sample(&self.samples);
        proof {
            assert(is_largest(self.latencies(), longest));
        }
        LatencyStats {
            count: count_samples(&self.samples),
            p50: Duration::from_micros(quantiles.p50),
            p90: Duration::from_micros(quantiles.p90),
            p99: Duration::from_micros(quantiles.p99),
            p99_9: Duration::from_micros(quantiles.p99_9),
            max: Duration::from_micros(longest),
        }
    }
}

impl Default for LatencyRecorder {
    fn default() -> (recorder: LatencyRecorder)
        ensures
            recorder.latencies() == Multiset::<u64>::empty(),
    {
        LatencyRecorder::new()
    }
}

/// A stall is not hidden: of two requests that are complete at the same time, the one that was meant
/// to be sent earlier has a latency at least as long, however late it went out.
pub proof fn law_earlier_intent_longer_latency(earlier: nat, later: nat, completed: nat)
    requires
        earlier <= later <= completed,
    ensures
        micros((completed - later) as nat) <= micros((completed - earlier) as nat),
{
    vstd::arithmetic::div_mod::lemma_div_is_ordered(
        completed - later,
        completed - earlier,
        1000,
    );
}

/// A latency is recorded in whole microseconds, and what is over is left out.
pub proof fn law_micros_leave_the_rest_out(us: u64, over: nat)
    requires
        over < 1000,
    ensures
        micros((us * 1000 + over) as nat) == us,
{
}

} // verus!
