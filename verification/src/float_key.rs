//! Order keys of double-precision values.
//!
//! A bound of a constraint is a finite `f64`. The library holds it as an
//! *order key*: an `i64` computed from the IEEE 754 bit pattern such that
//! keys compare exactly as the values do, `0.0` and `-0.0` share the key 0,
//! and negating a value negates its key. Nonnegative values keep their bit
//! pattern as key; negative values take the negated magnitude bits.

use vstd::prelude::*;

verus! {

/// The sign bit of an `f64` bit pattern (`2^63`).
pub const SIGN_BIT: u64 = 0x8000_0000_0000_0000;

/// The largest key of a finite value (the key of `f64::MAX`).
pub const MAX_FINITE_KEY: i64 = 0x7FEF_FFFF_FFFF_FFFF;

/// The key of positive infinity.
pub const INFINITY_KEY: i64 = 0x7FF0_0000_0000_0000;

/// The key of `0.0` (and of `-0.0`).
pub const ZERO_KEY: i64 = 0;

/// The key of `1.0`.
pub const ONE_KEY: i64 = 0x3FF0_0000_0000_0000;

/// The key of `-1.0`.
pub const NEG_ONE_KEY: i64 = -0x3FF0_0000_0000_0000;

/// The key of the value whose bit pattern is `bits`.
pub open spec fn key_of_bits(bits: u64) -> int {
    if bits < SIGN_BIT {
        bits as int
    } else {
        -(bits - SIGN_BIT)
    }
}

/// The bit pattern of the negated value: the sign bit flipped.
pub open spec fn negated_bits(bits: u64) -> u64 {
    if bits < SIGN_BIT {
        (bits + SIGN_BIT) as u64
    } else {
        (bits - SIGN_BIT) as u64
    }
}

/// Whether a key belongs to a finite value.
pub open spec fn is_finite_key(key: int) -> bool {
    -MAX_FINITE_KEY <= key <= MAX_FINITE_KEY
}

/// Whether a key belongs to a value that is not NaN (finite or infinite).
pub open spec fn is_ordered_key(key: int) -> bool {
    -INFINITY_KEY <= key <= INFINITY_KEY
}

/// Whether two optional bounds are equal the way `Option<f64>` is: a NaN
/// bound equals nothing, itself included.
pub open spec fn same_bound(a: Option<i64>, b: Option<i64>) -> bool {
    match (a, b) {
        (None, None) => true,
        (Some(x), Some(y)) => x == y && is_ordered_key(x as int),
        _ => false,
    }
}

/// The greater of two keys the way `f64::max` takes it: when one is NaN,
/// the other.
pub open spec fn max_key(x: i64, y: i64) -> i64 {
    if !is_ordered_key(x as int) {
        y
    } else if !is_ordered_key(y as int) {
        x
    } else if x >= y {
        x
    } else {
        y
    }
}

/// The smaller of two keys the way `f64::min` takes it: when one is NaN,
/// the other.
pub open spec fn min_key(x: i64, y: i64) -> i64 {
    if !is_ordered_key(x as int) {
        y
    } else if !is_ordered_key(y as int) {
        x
    } else if x <= y {
        x
    } else {
        y
    }
}

/// Whether a key belongs to a value that is not NaN.
pub fn key_is_ordered(k: i64) -> (b: bool)
    ensures
        b == is_ordered_key(k as int),
{
    -INFINITY_KEY <= k && k <= INFINITY_KEY
}

/// Compares two optional bounds the way `Option<f64>` does.
pub fn bounds_equal(a: Option<i64>, b: Option<i64>) -> (r: bool)
    ensures
        r == same_bound(a, b),
{
    match (a, b) {
        (None, None) => true,
        (Some(x), Some(y)) => x == y && key_is_ordered(x),
        _ => false,
    }
}

/// `f64::max` on keys.
pub fn key_max(x: i64, y: i64) -> (r: i64)
    ensures
        r == max_key(x, y),
{
    if !key_is_ordered(x) {
        y
    } else if !key_is_ordered(y) {
        x
    } else if x >= y {
        x
    } else {
        y
    }
}

/// `f64::min` on keys.
pub fn key_min(x: i64, y: i64) -> (r: i64)
    ensures
        r == min_key(x, y),
{
    if !key_is_ordered(x) {
        y
    } else if !key_is_ordered(y) {
        x
    } else if x <= y {
        x
    } else {
        y
    }
}

/// The order key of the value with bit pattern `bits`.
pub fn float_key_from_bits(bits: u64) -> (key: i64)
    ensures
        key == key_of_bits(bits),
{
    if bits < SIGN_BIT {
        bits as i64
    } else {
        -((bits - SIGN_BIT) as i64)
    }
}

/// The bit pattern with order key `key`; a zero key gives the pattern of `0.0`.
pub open spec fn bits_of_key(key: int) -> u64 {
    if key >= 0 {
        key as u64
    } else {
        (SIGN_BIT + (-key)) as u64
    }
}

/// The bit pattern of the value with order key `key`.
pub fn float_bits_from_key(key: i64) -> (bits: u64)
    requires
        key > i64::MIN,
    ensures
        bits == bits_of_key(key as int),
        key_of_bits(bits) == key,
{
    if key >= 0 {
        key as u64
    } else {
        SIGN_BIT + ((-key) as u64)
    }
}

/// Every key of an `i64` other than `i64::MIN` is the key of its bit pattern.
pub proof fn lemma_key_of_bits_of_key(key: int)
    requires
        i64::MIN < key <= i64::MAX,
    ensures
        key_of_bits(bits_of_key(key)) == key,
{
}

/// A bit pattern is recovered from its key, except `-0.0`, whose key is that
/// of `0.0`.
pub proof fn lemma_bits_of_key_of_bits(bits: u64)
    requires
        bits != SIGN_BIT,
    ensures
        bits_of_key(key_of_bits(bits)) == bits,
{
}

/// Negating a value negates its key: flipping the sign bit maps `x` to `-x`.
pub proof fn lemma_negation_negates_key(bits: u64)
    ensures
        key_of_bits(negated_bits(bits)) == -key_of_bits(bits),
{
}

} // verus!
