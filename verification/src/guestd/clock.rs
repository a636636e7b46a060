//! The guest clock after a migration.
//!
//! A microVM's clock stands still from the snapshot to the restore, so right after a move the
//! guest is behind by as long as the move took. Given the guest's reading at resume and the
//! host's reading of the same instant, [`ClockFixup`] is the correction that puts later guest
//! readings back on the true timeline.

use vstd::prelude::*;

use crate::proto::ids::Timestamp;

verus! {

/// A signed clock correction, in nanoseconds.
#[derive(Clone, Copy, Debug, PartialEq, Eq, Structural)]
pub struct ClockFixup {
    offset_nanos: i128,
}

/// `n` brought into the range of a timestamp.
pub open spec fn clamped(n: int) -> u64 {
    if n < 0 {
        0
    } else if n > u64::MAX {
        u64::MAX
    } else {
        n as u64
    }
}

impl ClockFixup {
    #[verifier::type_invariant]
    spec fn in_range(self) -> bool {
        -0xffff_ffff_ffff_ffff <= self.offset_nanos <= 0xffff_ffff_ffff_ffff
    }

    /// The offset to add to a guest reading.
    pub closed spec fn offset(&self) -> int {
        self.offset_nanos as int
    }

    /// What the reading `observed` is corrected to.
    pub open spec fn corrected(&self, observed: Timestamp) -> u64 {
        clamped(observed.nanos + self.offset())
    }

    /// Whether this is the correction for a guest that read `guest` when the time was
    /// `authoritative`.
    pub open spec fn lies_between(&self, guest: Timestamp, authoritative: Timestamp) -> bool {
        self.offset() == authoritative.nanos - guest.nanos
    }

    /// The correction for a guest that read `guest_at_resume` when the time was `authoritative`.
    pub fn between(guest_at_resume: Timestamp, authoritative: Timestamp) -> (fixup: ClockFixup)
        ensures
            fixup.lies_between(guest_at_resume, authoritative),
    {
        ClockFixup { offset_nanos: authoritative.nanos as i128 - guest_at_resume.nanos as i128 }
    }

    /// The correction of a clock that is right.
    pub fn none() -> (fixup: ClockFixup)
        ensures
            fixup.offset() == 0,
    {
        ClockFixup { offset_nanos: 0 }
    }

    /// The offset to add to a guest reading, in nanoseconds.
    pub fn offset_nanos(&self) -> (n: i128)
        ensures
            n == self.offset(),
    {
        self.offset_nanos
    }

    /// Whether the clock needs putting right at all.
    pub fn is_skewed(&self) -> (skewed: bool)
        ensures
            skewed == (self.offset() != 0),
    {
        self.offset_nanos != 0
    }

    /// A later guest reading on the true timeline. A reading that the correction pushes out of
    /// range stays at the end of the range.
    pub fn correct(&self, observed: Timestamp) -> (ts: Timestamp)
        ensures
            ts.nanos == self.corrected(observed),
    {
        proof {
            use_type_invariant(self);
        }
        let corrected: i128 = observed.nanos as i128 + self.offset_nanos;
        if corrected < 0 {
            Timestamp::from_nanos(0)
        } else if corrected > u64::MAX as i128 {
            Timestamp::from_nanos(u64::MAX)
        } else {
            Timestamp::from_nanos(corrected as u64)
        }
    }
}

/// The reading that a correction was computed from is corrected to the authoritative time
/// exactly.
pub proof fn law_resume_reading_is_authoritative(
    fixup: ClockFixup,
    guest: Timestamp,
    authoritative: Timestamp,
)
    requires
        fixup.lies_between(guest, authoritative),
    ensures
        fixup.corrected(guest) == authoritative.nanos,
{
}

/// Two clocks that agree need no correction, and it changes no reading.
pub proof fn law_no_skew_is_identity(fixup: ClockFixup, both: Timestamp, observed: Timestamp)
    requires
        fixup.lies_between(both, both),
    ensures
        fixup.offset() == 0,
        fixup.corrected(observed) == observed.nanos,
{
}

/// Correction keeps the order of guest readings.
pub proof fn law_correction_keeps_order(fixup: ClockFixup, earlier: Timestamp, later: Timestamp)
    requires
        earlier.nanos <= later.nanos,
    ensures
        fixup.corrected(earlier) <= fixup.corrected(later),
{
}

/// Instants from before a move and corrected readings from after it lie on one timeline: what
/// the guest reads at or after the resume is never corrected to before the authoritative time of
/// the resume, so it sorts after everything that happened before the move.
pub proof fn law_corrected_readings_follow_the_move(
    fixup: ClockFixup,
    guest: Timestamp,
    authoritative: Timestamp,
    before: Timestamp,
    observed: Timestamp,
)
    requires
        fixup.lies_between(guest, authoritative),
        before.nanos <= authoritative.nanos,
        guest.nanos <= observed.nanos,
    ensures
        before.nanos <= fixup.corrected(observed),
{
}

/// A correction moves all readings alike: the time between two of them stays what it was, as long as
/// neither leaves the range of a timestamp.
pub proof fn law_correction_keeps_intervals(fixup: ClockFixup, a: Timestamp, b: Timestamp)
    requires
        0 <= a.nanos + fixup.offset() <= u64::MAX,
        0 <= b.nanos + fixup.offset() <= u64::MAX,
    ensures
        fixup.corrected(a) - fixup.corrected(b) == a.nanos - b.nanos,
{
}

} // verus!
