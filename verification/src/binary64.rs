//! Binary64 floating-point numbers, held as their bit patterns: the sign in the top bit, then the
//! exponent, then the fraction. Read as integers, the patterns without their sign grow with the
//! magnitude they stand for, so that comparing numbers is comparing integers.

use vstd::prelude::*;

verus! {

/// The pattern of the number one.
pub const ONE: u64 = 0x3ff0_0000_0000_0000;

/// The pattern of positive infinity, past which only NaNs lie.
pub const INFINITY: u64 = 0x7ff0_0000_0000_0000;

/// The sign bit on its own.
pub const SIGN: u64 = 0x8000_0000_0000_0000;

/// The pattern without its sign.
pub open spec fn magnitude(bits: u64) -> int {
    bits as int % SIGN as int
}

/// Whether the sign is set.
pub open spec fn negative(bits: u64) -> bool {
    bits >= SIGN
}

/// Whether the pattern stands for no number.
pub open spec fn is_nan(bits: u64) -> bool {
    magnitude(bits) > INFINITY
}

/// Whether the pattern stands for a number that is not infinite.
pub open spec fn is_finite(bits: u64) -> bool {
    magnitude(bits) < INFINITY
}

/// Where the number lies among the others. Both zeros lie at the same place.
pub open spec fn rank(bits: u64) -> int {
    if negative(bits) {
        -magnitude(bits)
    } else {
        magnitude(bits)
    }
}

/// Where the pattern lies in the total order of patterns, in which negative zero comes just
/// before positive zero and NaNs lie at both ends.
pub open spec fn total_rank(bits: u64) -> int {
    if negative(bits) {
        -1 - magnitude(bits)
    } else {
        magnitude(bits)
    }
}

/// `a < b` between numbers; never of a NaN.
pub open spec fn less(a: u64, b: u64) -> bool {
    !is_nan(a) && !is_nan(b) && rank(a) < rank(b)
}

/// `a <= b` between numbers; never of a NaN.
pub open spec fn at_most(a: u64, b: u64) -> bool {
    !is_nan(a) && !is_nan(b) && rank(a) <= rank(b)
}

/// `a == b` between numbers: both zeros are equal, and a NaN equals nothing.
pub open spec fn equal(a: u64, b: u64) -> bool {
    !is_nan(a) && !is_nan(b) && rank(a) == rank(b)
}

/// The pattern without its sign.
fn magnitude_of(bits: u64) -> (m: u64)
    ensures
        m == magnitude(bits),
{
    bits % SIGN
}

/// Whether the pattern stands for a number that is not infinite.
pub fn finite(bits: u64) -> (ok: bool)
    ensures
        ok == is_finite(bits),
{
    magnitude_of(bits) < INFINITY
}

/// Where the number lies among the others.
fn rank_of(bits: u64) -> (r: i128)
    ensures
        r == rank(bits),
{
    if bits >= SIGN {
        -(magnitude_of(bits) as i128)
    } else {
        magnitude_of(bits) as i128
    }
}

/// `a < b` between numbers.
pub fn less_than(a: u64, b: u64) -> (yes: bool)
    ensures
        yes == less(a, b),
{
    magnitude_of(a) <= INFINITY && magnitude_of(b) <= INFINITY && rank_of(a) < rank_of(b)
}

/// `a <= b` between numbers.
pub fn less_or_equal(a: u64, b: u64) -> (yes: bool)
    ensures
        yes == at_most(a, b),
{
    magnitude_of(a) <= INFINITY && magnitude_of(b) <= INFINITY && rank_of(a) <= rank_of(b)
}

/// `a == b` between numbers.
pub fn equals(a: u64, b: u64) -> (yes: bool)
    ensures
        yes == equal(a, b),
{
    magnitude_of(a) <= INFINITY && magnitude_of(b) <= INFINITY && rank_of(a) == rank_of(b)
}

/// Whether `a` comes before `b` in the total order of patterns.
pub fn totally_less(a: u64, b: u64) -> (yes: bool)
    ensures
        yes == (total_rank(a) < total_rank(b)),
{
    let ra: i128 = if a >= SIGN {
        -1 - magnitude_of(a) as i128
    } else {
        magnitude_of(a) as i128
    };
    let rb: i128 = if b >= SIGN {
        -1 - magnitude_of(b) as i128
    } else {
        magnitude_of(b) as i128
    };
    ra < rb
}

/// The order of two numbers can be read off their bits: of two positive ones the one with the smaller
/// bits is smaller, of two negative ones the one with the larger bits, and a negative one comes before
/// a positive one. The total order goes the same way and tells the two zeros apart.
pub proof fn law_order_follows_the_bits(a: u64, b: u64)
    ensures
        !negative(a) && !negative(b) ==> (total_rank(a) < total_rank(b) <==> a < b),
        negative(a) && negative(b) ==> (total_rank(a) < total_rank(b) <==> a > b),
        negative(a) && !negative(b) ==> total_rank(a) < total_rank(b),
        total_rank(a) == total_rank(b) <==> a == b,
        less(a, b) ==> total_rank(a) < total_rank(b),
        !is_nan(a) && !is_nan(b) && total_rank(a) < total_rank(b) ==> at_most(a, b),
{
}

/// Of two numbers that are none of them not a number, exactly one of three holds: the first is less,
/// the second is, or they are equal. With what is not a number nothing compares.
pub proof fn law_numbers_compare(a: u64, b: u64)
    ensures
        is_nan(a) || is_nan(b) ==> !less(a, b) && !at_most(a, b) && !equal(a, b),
        !is_nan(a) && !is_nan(b) ==> less(a, b) || equal(a, b) || less(b, a),
        less(a, b) ==> !less(b, a) && !equal(a, b),
        at_most(a, b) <==> less(a, b) || equal(a, b),
        equal(0, SIGN),
        is_finite(ONE) && less(0, ONE) && less((ONE + SIGN) as u64, 0),
        is_finite(a) ==> less(a, INFINITY) && !is_nan(a),
{
}

} // verus!
