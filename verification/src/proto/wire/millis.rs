//! A duration as a `u64` count of whole milliseconds.

use vstd::prelude::*;

use crate::time::Duration;

verus! {

/// The whole milliseconds of a span, at most as many as the wire can carry. Anything below a
/// millisecond is dropped.
pub open spec fn on_wire(nanos: nat) -> nat {
    if nanos / 1_000_000 <= u64::MAX {
        nanos / 1_000_000
    } else {
        u64::MAX as nat
    }
}

/// The count that stands for `d`.
pub fn serialize(d: &Duration) -> (ms: u64)
    ensures
        ms == on_wire(d@),
{
    let ms: u128 = d.as_millis();
    if ms <= u64::MAX as u128 {
        ms as u64
    } else {
        u64::MAX
    }
}

/// The span that a count stands for.
pub fn deserialize(ms: u64) -> (d: Duration)
    ensures
        d@ == ms * 1_000_000,
{
    Duration::from_millis(ms)
}

/// A count survives the way to a span and back.
pub proof fn law_millis_round_trip(ms: u64)
    ensures
        on_wire((ms * 1_000_000) as nat) == ms,
{
}

/// A span of at most `u64::MAX` milliseconds loses less than a millisecond on the wire.
pub proof fn law_wire_truncates_below_a_millisecond(nanos: nat)
    requires
        nanos / 1_000_000 <= u64::MAX,
    ensures
        on_wire(nanos) * 1_000_000 <= nanos < on_wire(nanos) * 1_000_000 + 1_000_000,
{
}

} // verus!
