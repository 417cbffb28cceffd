//! Order keys for IEEE-754 binary64 values given by their bit patterns.
//!
//! The resampling walk compares CDF values with strata using `<`. Those
//! values reach the verified code as `u64` keys; this module computes the
//! keys from the values' bit patterns (`f64::to_bits`) so that comparing a
//! CDF key with a stratum key gives exactly what the floating-point `<` on
//! the two values gives, NaN and signed zeros included.

use vstd::prelude::*;

verus! {

/// Bit mask of the exponent and fraction fields.
pub const MAGNITUDE_MASK: u64 = 0x7fff_ffff_ffff_ffffu64;

/// Bit pattern of positive infinity.
pub const INFINITY_BITS: u64 = 0x7ff0_0000_0000_0000u64;

/// Offset that moves signed magnitudes into the unsigned range.
pub const KEY_OFFSET: u64 = 0x8000_0000_0000_0000u64;

/// The exponent and fraction fields of `bits`: monotone in the absolute
/// value of every non-NaN value.
pub open spec fn magnitude(bits: u64) -> u64 {
    bits & MAGNITUDE_MASK
}

/// Whether the sign bit of `bits` is set.
pub open spec fn negative(bits: u64) -> bool {
    bits >> 63u64 == 1
}

/// Whether `bits` encodes a NaN: all exponent bits set and a nonzero fraction.
pub open spec fn is_nan(bits: u64) -> bool {
    magnitude(bits) > INFINITY_BITS
}

/// The value's position on the real line, as a signed integer: both zeros
/// sit at 0, and the order of these integers is the order of the values.
pub open spec fn signed_magnitude(bits: u64) -> int {
    if negative(bits) {
        -(magnitude(bits) as int)
    } else {
        magnitude(bits) as int
    }
}

/// IEEE-754 `<` on two binary64 values given by their bit patterns: false
/// when either is NaN, otherwise the order of their real values.
pub open spec fn ieee_lt(a: u64, b: u64) -> bool {
    !is_nan(a) && !is_nan(b) && signed_magnitude(a) < signed_magnitude(b)
}

/// Whether `bits` encodes a finite value (neither infinite nor NaN).
pub open spec fn is_finite(bits: u64) -> bool {
    magnitude(bits) < INFINITY_BITS
}

/// Whether `bits` encodes a value that compares equal to zero (`+0` or `-0`).
pub open spec fn is_zero(bits: u64) -> bool {
    magnitude(bits) == 0
}

/// IEEE-754 `<=` on two binary64 values given by their bit patterns.
pub open spec fn ieee_le(a: u64, b: u64) -> bool {
    !is_nan(a) && !is_nan(b) && signed_magnitude(a) <= signed_magnitude(b)
}

/// Key of a value on the left of `<` (a CDF value). NaN gets the largest
/// key, so that it is never below anything.
pub open spec fn lhs_key(bits: u64) -> u64 {
    if is_nan(bits) {
        u64::MAX
    } else {
        (signed_magnitude(bits) + KEY_OFFSET) as u64
    }
}

/// Key of a value on the right of `<` (a stratum). NaN gets key 0, so that
/// nothing is below it.
pub open spec fn rhs_key(bits: u64) -> u64 {
    if is_nan(bits) {
        0
    } else {
        (signed_magnitude(bits) + KEY_OFFSET) as u64
    }
}

proof fn lemma_fields(bits: u64)
    ensures
        magnitude(bits) < KEY_OFFSET,
        bits >> 63u64 <= 1,
{
    assert(bits & 0x7fff_ffff_ffff_ffffu64 < 0x8000_0000_0000_0000u64) by (bit_vector);
    assert(bits >> 63u64 <= 1) by (bit_vector);
}

fn signed_key(bits: u64) -> (k: u64)
    ensures
        k as int == signed_magnitude(bits) + KEY_OFFSET,
{
    proof {
        lemma_fields(bits);
    }
    let m: u64 = bits & MAGNITUDE_MASK;
    if bits >> 63u64 == 1 {
        KEY_OFFSET - m
    } else {
        KEY_OFFSET + m
    }
}

/// Computes `lhs_key(bits)`.
pub fn lhs_order_key(bits: u64) -> (k: u64)
    ensures
        k == lhs_key(bits),
{
    if bits & MAGNITUDE_MASK > INFINITY_BITS {
        u64::MAX
    } else {
        signed_key(bits)
    }
}

/// Computes `rhs_key(bits)`.
pub fn rhs_order_key(bits: u64) -> (k: u64)
    ensures
        k == rhs_key(bits),
{
    if bits & MAGNITUDE_MASK > INFINITY_BITS {
        0
    } else {
        signed_key(bits)
    }
}

/// Comparing the lhs key of `a` with the rhs key of `b` is the IEEE-754 `<`
/// of the two values, for every pair of bit patterns.
pub proof fn lemma_order_keys_compare_as_ieee(a: u64, b: u64)
    ensures
        (lhs_key(a) < rhs_key(b)) <==> ieee_lt(a, b),
{
    lemma_fields(a);
    lemma_fields(b);
}

} // verus!
