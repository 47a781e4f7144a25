//! Binary64 numbers by their bit pattern.
//!
//! The service reports percentages as floating-point numbers. The library only
//! compares them, which their bit patterns allow: `order_key` maps a pattern to
//! an integer in the total order of IEEE 754.
use vstd::prelude::*;

verus! {

pub const ZERO: u64 = 0;

/// The pattern of 5.0.
pub const FIVE: u64 = 0x4014_0000_0000_0000;

/// The pattern of 4.0.
pub const FOUR: u64 = 0x4010_0000_0000_0000;

/// The pattern of 100.0.
pub const HUNDRED: u64 = 0x4059_0000_0000_0000;

/// The pattern of positive infinity; beyond it lie the NaNs.
pub const INFINITY: u64 = 0x7FF0_0000_0000_0000;

pub const SIGN: u64 = 0x8000_0000_0000_0000;

/// The pattern without its sign.
pub open spec fn magnitude(bits: u64) -> int {
    if bits < SIGN {
        bits as int
    } else {
        bits - SIGN
    }
}

pub open spec fn is_nan(bits: u64) -> bool {
    magnitude(bits) > INFINITY
}

pub open spec fn is_finite(bits: u64) -> bool {
    magnitude(bits) < INFINITY
}

/// The place of a pattern in the total order: negative numbers before positive
/// ones, negative zero before positive zero.
pub open spec fn order_key(bits: u64) -> int {
    if bits < SIGN {
        bits as int
    } else {
        SIGN - 1 - bits
    }
}

/// `a >= b` as numbers: false for a NaN, and both zeros are equal.
pub open spec fn at_least(a: u64, b: u64) -> bool {
    &&& !is_nan(a)
    &&& !is_nan(b)
    &&& (order_key(a) >= order_key(b) || (magnitude(a) == 0 && magnitude(b) == 0))
}

/// `a > b` as numbers.
pub open spec fn greater(a: u64, b: u64) -> bool {
    !is_nan(a) && !is_nan(b) && !at_least(b, a)
}

pub fn key(bits: u64) -> (r: i64)
    ensures
        r as int == order_key(bits),
{
    if bits < SIGN {
        bits as i64
    } else {
        -((bits - SIGN) as i64) - 1
    }
}

fn unsigned(bits: u64) -> (r: u64)
    ensures
        r as int == magnitude(bits),
{
    if bits < SIGN {
        bits
    } else {
        bits - SIGN
    }
}

pub fn finite(bits: u64) -> (r: bool)
    ensures
        r == is_finite(bits),
{
    unsigned(bits) < INFINITY
}

pub fn reaches(a: u64, b: u64) -> (r: bool)
    ensures
        r == at_least(a, b),
{
    let x: u64 = unsigned(a);
    let y: u64 = unsigned(b);
    x <= INFINITY && y <= INFINITY && (key(a) >= key(b) || (x == 0 && y == 0))
}

pub fn exceeds(a: u64, b: u64) -> (r: bool)
    ensures
        r == greater(a, b),
{
    unsigned(a) <= INFINITY && unsigned(b) <= INFINITY && !reaches(b, a)
}

/// The nearest number between `low` and `high`.
pub open spec fn clamped(bits: u64, low: u64, high: u64) -> u64 {
    if greater(low, bits) {
        low
    } else if greater(bits, high) {
        high
    } else {
        bits
    }
}

pub fn clamp(bits: u64, low: u64, high: u64) -> (r: u64)
    ensures
        r == clamped(bits, low, high),
{
    if exceeds(low, bits) {
        low
    } else if exceeds(bits, high) {
        high
    } else {
        bits
    }
}

/// Clamping a finite number leaves it within the bounds.
pub proof fn clamping_bounds(bits: u64, low: u64, high: u64)
    requires
        is_finite(bits),
        !is_nan(low),
        !is_nan(high),
        at_least(high, low),
    ensures
        at_least(clamped(bits, low, high), low),
        at_least(high, clamped(bits, low, high)),
{
}

/// Of two numbers, each not a NaN, one is at least the other.
pub proof fn comparison_is_total(a: u64, b: u64)
    requires
        !is_nan(a),
        !is_nan(b),
    ensures
        at_least(a, b) || at_least(b, a),
        at_least(a, b) != greater(b, a),
{
}

/// Comparison chains.
pub proof fn comparison_is_transitive(a: u64, b: u64, c: u64)
    requires
        at_least(a, b),
        at_least(b, c),
    ensures
        at_least(a, c),
{
}

/// Numbers below zero are below every number that is not, and patterns of one sign
/// compare as their magnitudes do, or the other way round below zero.
pub proof fn signs_decide_first(a: u64, b: u64)
    requires
        !is_nan(a),
        !is_nan(b),
    ensures
        a < SIGN && b < SIGN ==> (at_least(a, b) <==> a >= b),
        a >= SIGN && b >= SIGN ==> (at_least(a, b) <==> a <= b),
        a < SIGN && b >= SIGN ==> at_least(a, b),
        a < SIGN && b > SIGN ==> greater(a, b),
        at_least(0, SIGN) && at_least(SIGN, 0),
        greater(FIVE, FOUR) && greater(HUNDRED, FIVE) && greater(FOUR, ZERO),
{
}

/// A NaN compares with nothing.
pub proof fn nans_do_not_compare(a: u64, b: u64)
    requires
        is_nan(a),
    ensures
        !at_least(a, b) && !at_least(b, a) && !greater(a, b) && !greater(b, a),
{
}

/// A number between the bounds stays; one outside becomes the bound that it passed.
pub proof fn clamping_keeps_what_fits(bits: u64, low: u64, high: u64)
    requires
        !is_nan(bits) && !is_nan(low) && !is_nan(high),
        at_least(high, low),
    ensures
        at_least(bits, low) && at_least(high, bits) ==> clamped(bits, low, high) == bits,
        greater(low, bits) ==> clamped(bits, low, high) == low,
        greater(bits, high) ==> clamped(bits, low, high) == high,
{
}

} // verus!
