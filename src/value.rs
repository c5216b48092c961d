//! Observations are IEEE-754 binary64 numbers, held here as their bit
//! patterns (`u64`), the same bits that `f64::to_bits` gives. Comparison
//! follows the floating-point order: a NaN is skipped by `min` and `max`,
//! and otherwise the smaller (larger) number wins. Negative zero is ordered
//! just below positive zero, as IEEE-754 `totalOrder` does.
use vstd::prelude::*;

verus! {

/// The sign bit of a binary64 pattern.
pub const SIGN_BIT: u64 = 0x8000_0000_0000_0000;

/// The bit pattern of positive infinity.
pub const POS_INFINITY: u64 = 0x7FF0_0000_0000_0000;

/// The bit pattern of negative infinity.
pub const NEG_INFINITY: u64 = 0xFFF0_0000_0000_0000;

/// The bit pattern of positive zero.
pub const POS_ZERO: u64 = 0;

/// The pattern without its sign bit.
pub open spec fn magnitude(b: u64) -> u64 {
    if b >= SIGN_BIT {
        (b - SIGN_BIT) as u64
    } else {
        b
    }
}

/// A NaN: exponent all ones and a non-zero fraction.
pub open spec fn is_nan(b: u64) -> bool {
    magnitude(b) > POS_INFINITY
}

/// A key whose integer order is the floating-point order of non-NaN patterns:
/// negative numbers count down from the top of the sign half, positive ones up.
pub open spec fn order_key(b: u64) -> int {
    if b >= SIGN_BIT {
        u64::MAX - b
    } else {
        b + SIGN_BIT
    }
}

/// `a` is at most `b` in the floating-point order.
pub open spec fn precedes(a: u64, b: u64) -> bool {
    order_key(a) <= order_key(b)
}

/// The minimum of two numbers as `f64::min` gives it: a NaN yields the other.
pub open spec fn min_spec(a: u64, b: u64) -> u64 {
    if is_nan(a) {
        b
    } else if is_nan(b) {
        a
    } else if precedes(a, b) {
        a
    } else {
        b
    }
}

/// The maximum of two numbers as `f64::max` gives it: a NaN yields the other.
pub open spec fn max_spec(a: u64, b: u64) -> u64 {
    if is_nan(a) {
        b
    } else if is_nan(b) {
        a
    } else if precedes(b, a) {
        a
    } else {
        b
    }
}

/// Whether the pattern is a NaN.
pub fn is_nan_bits(b: u64) -> (r: bool)
    ensures
        r == is_nan(b),
{
    let m: u64 = if b >= SIGN_BIT {
        b - SIGN_BIT
    } else {
        b
    };
    m > POS_INFINITY
}

/// The order key of a pattern (see `order_key`).
pub fn order_key_of(b: u64) -> (r: u64)
    ensures
        r as int == order_key(b),
{
    if b >= SIGN_BIT {
        u64::MAX - b
    } else {
        b + SIGN_BIT
    }
}

/// The minimum of two observations, NaN skipped.
pub fn min_of(a: u64, b: u64) -> (r: u64)
    ensures
        r == min_spec(a, b),
{
    if is_nan_bits(a) {
        b
    } else if is_nan_bits(b) {
        a
    } else if order_key_of(a) <= order_key_of(b) {
        a
    } else {
        b
    }
}

/// The maximum of two observations, NaN skipped.
pub fn max_of(a: u64, b: u64) -> (r: u64)
    ensures
        r == max_spec(a, b),
{
    if is_nan_bits(a) {
        b
    } else if is_nan_bits(b) {
        a
    } else if order_key_of(b) <= order_key_of(a) {
        a
    } else {
        b
    }
}

/// Distinct patterns have distinct keys, so the order is total and
/// antisymmetric on patterns.
pub proof fn lemma_order_key_injective(a: u64, b: u64)
    ensures
        order_key(a) == order_key(b) ==> a == b,
{
}

} // verus!
