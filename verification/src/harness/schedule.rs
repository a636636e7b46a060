//! When each request of an open-loop load is meant to go out, decided before the first one does,
//! so that a stall never holds a later request back unseen.

use vstd::prelude::*;

use crate::binary64;
use crate::time::Duration;

verus! {

/// How requests are spaced.
#[derive(Clone, Copy, Debug, PartialEq, Eq, Structural)]
pub enum Arrivals {
    /// Evenly.
    Fixed,
    /// With exponentially distributed gaps, reproducible from the seed.
    Poisson {
        /// Seed of the gaps.
        seed: u64,
    },
}

/// The intended send times of a run, as offsets from its start.
#[derive(Clone, Debug, PartialEq, Eq)]
pub struct Schedule {
    times: Vec<Duration>,
}

/// Whether a load of `rate` requests per second, given as a bit pattern, sends anything: the rate
/// is finite and above zero.
pub open spec fn sends(rate: u64) -> bool {
    binary64::is_finite(rate) && binary64::rank(rate) > 0
}

/// How many of `times` come before the first that lies at or past `horizon`.
pub open spec fn within(times: Seq<Duration>, horizon: Duration) -> nat
    decreases times.len(),
{
    if times.len() == 0 || times[0]@ >= horizon@ {
        0
    } else {
        1 + within(times.skip(1), horizon)
    }
}

impl View for Schedule {
    type V = Seq<Duration>;

    /// The intended send times.
    closed spec fn view(&self) -> Seq<Duration> {
        self.times@
    }
}

impl Schedule {
    /// Whether a load of `rate` requests per second, given as a bit pattern, sends anything.
    pub fn rate_sends(rate: u64) -> (yes: bool)
        ensures
            yes == sends(rate),
    {
        binary64::finite(rate) && binary64::less_than(0, rate)
    }

    /// The schedule of a load of `rate` requests per second whose arrivals come at `arrivals`, in
    /// that order: the arrivals before the first that lies at or past `horizon`, and none at all
    /// where the rate sends nothing.
    pub fn of_arrivals(rate: u64, arrivals: Vec<Duration>, horizon: Duration) -> (s: Schedule)
        ensures
            s@ == if sends(rate) {
                arrivals@.take(within(arrivals@, horizon) as int)
            } else {
                Seq::<Duration>::empty()
            },
            forall|i: int| 0 <= i < s@.len() ==> (#[trigger] s@[i])@ < horizon@,
    {
        let mut times: Vec<Duration> = Vec::new();
        if !Schedule::rate_sends(rate) {
            return Schedule { times };
        }
        let mut i: usize = 0;
        proof {
            assert(arrivals@.skip(0) =~= arrivals@);
        }
        while i < arrivals.len() && arrivals[i].shorter_than(&horizon)
            invariant
                i <= arrivals@.len(),
                times@ == arrivals@.take(i as int),
                within(arrivals@, horizon) == i + within(arrivals@.skip(i as int), horizon),
                forall|j: int| 0 <= j < times@.len() ==> (#[trigger] times@[j])@ < horizon@,
            decreases arrivals@.len() - i,
        {
            proof {
                assert(arrivals@.skip(i as int).skip(1) =~= arrivals@.skip(i + 1));
            }
            times.push(arrivals[i]);
            i = i + 1;
        }
        proof {
            assert(within(arrivals@.skip(i as int), horizon) == 0);
        }
        Schedule { times }
    }

    /// The intended send times.
    pub fn times(&self) -> (times: &Vec<Duration>)
        ensures
            times@ == self@,
    {
        &self.times
    }

    /// How many requests go out.
    pub fn len(&self) -> (n: usize)
        ensures
            n == self@.len(),
    {
        self.times.len()
    }

    /// Whether no request goes out.
    pub fn is_empty(&self) -> (empty: bool)
        ensures
            empty == (self@.len() == 0),
    {
        self.times.len() == 0
    }
}

// ---------------------------------------------------------------------------
// The seeded generator
// ---------------------------------------------------------------------------

/// A small seeded generator of pseudo-random numbers (SplitMix64).
pub struct SplitMix64 {
    state: u64,
}

/// The state one step on.
pub open spec fn step(state: u64) -> u64 {
    state.wrapping_add(0x9E37_79B9_7F4A_7C15)
}

/// The state `n` steps on.
pub open spec fn steps(state: u64, n: nat) -> u64
    decreases n,
{
    if n == 0 {
        state
    } else {
        step(steps(state, (n - 1) as nat))
    }
}

/// The number that a state yields.
#[verifier::opaque]
pub open spec fn mix(state: u64) -> u64 {
    let a = (state ^ (state >> 30)).wrapping_mul(0xBF58_476D_1CE4_E5B9);
    let b = (a ^ (a >> 27)).wrapping_mul(0x94D0_49BB_1331_11EB);
    b ^ (b >> 31)
}

/// The number that the generator seeded with `seed` yields after `n` others.
pub open spec fn draw(seed: u64, n: nat) -> u64 {
    mix(steps(seed, n + 1))
}

impl View for SplitMix64 {
    type V = u64;

    /// The generator's state.
    closed spec fn view(&self) -> u64 {
        self.state
    }
}

impl SplitMix64 {
    /// The generator that `seed` determines.
    pub fn new(seed: u64) -> (rng: SplitMix64)
        ensures
            rng@ == seed,
    {
        SplitMix64 { state: seed }
    }

    /// The next number.
    pub fn next_u64(&mut self) -> (n: u64)
        ensures
            final(self)@ == step(old(self)@),
            n == mix(final(self)@),
    {
        proof {
            reveal(mix);
        }
        self.state = self.state.wrapping_add(0x9E37_79B9_7F4A_7C15);
        let mut z: u64 = self.state;
        z = (z ^ (z >> 30)).wrapping_mul(0xBF58_476D_1CE4_E5B9);
        z = (z ^ (z >> 27)).wrapping_mul(0x94D0_49BB_1331_11EB);
        z ^ (z >> 31)
    }

    /// The top 53 bits of the next number: the numerator over 2^53 of a uniform sample of [0, 1).
    pub fn next_fraction(&mut self) -> (n: u64)
        ensures
            final(self)@ == step(old(self)@),
            n == mix(final(self)@) / 2048,
            n < 0x20_0000_0000_0000,
    {
        let z: u64 = self.next_u64();
        assert(z >> 11 == z / 2048) by (bit_vector);
        z >> 11
    }
}

/// A schedule goes up to its horizon: it keeps the arrivals up to the first that is not before the
/// horizon, and leaves that one out.
pub proof fn law_schedule_ends_at_the_horizon(times: Seq<Duration>, horizon: Duration)
    ensures
        within(times, horizon) <= times.len(),
        forall|i: int| 0 <= i < within(times, horizon) ==> (#[trigger] times[i])@ < horizon@,
        within(times, horizon) < times.len() ==> times[within(times, horizon) as int]@ >= horizon@,
    decreases times.len(),
{
    if times.len() > 0 && times[0]@ < horizon@ {
        let rest = times.skip(1);
        law_schedule_ends_at_the_horizon(rest, horizon);
        assert forall|i: int| 0 <= i < within(times, horizon) implies (#[trigger] times[i])@
            < horizon@ by {
            if i > 0 {
                assert(rest[i - 1] == times[i]);
            }
        }
        if within(times, horizon) < times.len() {
            assert(rest[within(rest, horizon) as int] == times[within(times, horizon) as int]);
        }
    }
}

/// A load is sent at every rate that is a number above zero, and at no other.
pub proof fn law_rates_that_send(rate: u64)
    ensures
        sends(rate) <==> binary64::less(0, rate) && binary64::less(rate, binary64::INFINITY),
{
}

} // verus!
