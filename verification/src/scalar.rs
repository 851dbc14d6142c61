//! Numbers as IEEE-754 binary64 bit patterns.
//!
//! A weight, a score or a probability is carried as the `u64` that holds its
//! sign bit, eleven exponent bits and fifty-two fraction bits. Ordering two
//! such numbers needs no arithmetic on them: apart from the sign, a larger
//! pattern is a larger number.

use vstd::prelude::*;

verus! {

/// The sign bit of a pattern.
pub const SIGN: u64 = 0x8000_0000_0000_0000;

/// The pattern of positive infinity; every magnitude above it is not a number.
pub const INFINITY: u64 = 0x7ff0_0000_0000_0000;

/// The pattern of positive zero.
pub const ZERO: u64 = 0;

/// The pattern of one.
pub const ONE: u64 = 0x3ff0_0000_0000_0000;

/// The pattern without its sign bit.
pub open spec fn magnitude(bits: u64) -> int {
    if bits >= SIGN {
        bits - SIGN
    } else {
        bits as int
    }
}

/// Whether the pattern stands for no number at all.
pub open spec fn nan(bits: u64) -> bool {
    magnitude(bits) > INFINITY
}

/// Where the number stands on the number line: two patterns that are numbers
/// compare as their ranks do. Both zeros have rank 0.
pub open spec fn rank(bits: u64) -> int {
    if bits >= SIGN {
        -magnitude(bits)
    } else {
        magnitude(bits)
    }
}

/// Whether `a` is strictly greater than `b`. Nothing is greater or less than
/// a pattern that is not a number.
pub open spec fn above(a: u64, b: u64) -> bool {
    !nan(a) && !nan(b) && rank(a) > rank(b)
}

/// Whether the number lies in the half-open interval from zero to one.
pub open spec fn unit(bits: u64) -> bool {
    bits < ONE
}

/// The rectified number: itself where it is greater than zero, else zero.
pub open spec fn rectified(x: u64) -> u64 {
    if above(x, ZERO) {
        x
    } else {
        ZERO
    }
}

/// Whether the pattern stands for no number at all.
pub fn is_nan(bits: u64) -> (r: bool)
    ensures
        r == nan(bits),
{
    if bits >= SIGN {
        bits - SIGN > INFINITY
    } else {
        bits > INFINITY
    }
}

/// Whether `a` is strictly greater than `b`, as numbers.
pub fn greater(a: u64, b: u64) -> (r: bool)
    ensures
        r == above(a, b),
{
    if is_nan(a) || is_nan(b) {
        false
    } else if a >= SIGN {
        // a is zero or negative: only a negative of larger magnitude is below it
        b >= SIGN && a < b
    } else if b >= SIGN {
        // b is zero or negative, a is zero or positive: equal only as two zeros
        a > ZERO || b > SIGN
    } else {
        a > b
    }
}

/// Whether the number lies in the half-open interval from zero to one.
pub fn is_unit(bits: u64) -> (r: bool)
    ensures
        r == unit(bits),
{
    bits < ONE
}

/// The rectifier: a number greater than zero passes, anything else becomes
/// positive zero.
pub fn relu(x: u64) -> (r: u64)
    ensures
        r == rectified(x),
{
    if greater(x, ZERO) {
        x
    } else {
        ZERO
    }
}

} // verus!
