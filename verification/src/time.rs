//! Spans of time.

use vstd::prelude::*;

verus! {

/// A span of time in whole nanoseconds, always shorter than 2^64 seconds.
#[derive(Clone, Copy, Debug, PartialEq, Eq, PartialOrd, Ord, Hash, Structural)]
pub struct Duration {
    nanos: u128,
}

impl View for Duration {
    type V = nat;

    /// The span in nanoseconds.
    closed spec fn view(&self) -> nat {
        self.nanos as nat
    }
}

/// The longest span, in nanoseconds.
pub open spec fn max_nanos() -> nat {
    0xffff_ffff_ffff_ffff * 1_000_000_000 + 999_999_999
}

impl Duration {
    #[verifier::type_invariant]
    spec fn in_range(self) -> bool {
        self.nanos <= max_nanos()
    }

    /// The empty span.
    pub fn zero() -> (d: Duration)
        ensures
            d@ == 0,
    {
        Duration { nanos: 0 }
    }

    /// A span of whole seconds.
    pub fn from_secs(secs: u64) -> (d: Duration)
        ensures
            d@ == secs * 1_000_000_000,
    {
        Duration { nanos: secs as u128 * 1_000_000_000 }
    }

    /// A span of whole milliseconds.
    pub fn from_millis(millis: u64) -> (d: Duration)
        ensures
            d@ == millis * 1_000_000,
    {
        Duration { nanos: millis as u128 * 1_000_000 }
    }

    /// A span of whole microseconds.
    pub fn from_micros(micros: u64) -> (d: Duration)
        ensures
            d@ == micros * 1000,
    {
        Duration { nanos: micros as u128 * 1000 }
    }

    /// A span of nanoseconds.
    pub fn from_nanos(nanos: u64) -> (d: Duration)
        ensures
            d@ == nanos,
    {
        Duration { nanos: nanos as u128 }
    }

    /// The whole milliseconds in the span.
    pub fn as_millis(&self) -> (n: u128)
        ensures
            n == self@ / 1_000_000,
    {
        self.nanos / 1_000_000
    }

    /// The whole microseconds in the span.
    pub fn as_micros(&self) -> (n: u128)
        ensures
            n == self@ / 1000,
    {
        self.nanos / 1000
    }

    /// The nanoseconds in the span.
    pub fn as_nanos(&self) -> (n: u128)
        ensures
            n == self@,
            n <= max_nanos(),
    {
        proof {
            use_type_invariant(self);
        }
        self.nanos
    }

    /// `self - other`, or `None` where `other` is the longer span.
    pub fn checked_sub(&self, other: Duration) -> (d: Option<Duration>)
        ensures
            match d {
                Some(d) => other@ <= self@ && d@ == self@ - other@,
                None => self@ < other@,
            },
    {
        proof {
            use_type_invariant(self);
        }
        if other.nanos <= self.nanos {
            Some(Duration { nanos: self.nanos - other.nanos })
        } else {
            None
        }
    }

    /// `self - other`, or nothing where `other` is the longer span.
    pub fn saturating_sub(&self, other: Duration) -> (d: Duration)
        ensures
            d@ == if other@ <= self@ {
                self@ - other@
            } else {
                0
            },
    {
        match self.checked_sub(other) {
            Some(d) => d,
            None => Duration::zero(),
        }
    }

    /// Both spans one after the other, or the longest span where they do not fit.
    pub fn saturating_add(&self, other: Duration) -> (d: Duration)
        ensures
            d@ == if self@ + other@ <= max_nanos() {
                self@ + other@
            } else {
                max_nanos()
            },
    {
        proof {
            use_type_invariant(self);
            use_type_invariant(&other);
        }
        let longest: u128 = 0xffff_ffff_ffff_ffff * 1_000_000_000 + 999_999_999;
        let nanos: u128 = self.nanos + other.nanos;
        if nanos <= longest {
            Duration { nanos }
        } else {
            Duration { nanos: longest }
        }
    }

    /// Whether `self` is the shorter span.
    pub fn shorter_than(&self, other: &Duration) -> (shorter: bool)
        ensures
            shorter == (self@ < other@),
    {
        self.nanos < other.nanos
    }
}

} // verus!
