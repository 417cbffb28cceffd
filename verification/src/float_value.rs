//! The real number a binary64 bit pattern stands for, defined from the
//! IEEE-754 fields, and the laws that tie the comparison helpers of
//! [`crate::order`] to the order of those real numbers.
//!
//! A finite pattern with sign `s`, exponent field `e` and fraction field `f`
//! stands for `(-1)^s · m · 2^(max(e, 1) - 1075)`, where `m = f` when `e = 0`
//! (subnormals and zeros) and `m = 2^52 + f` otherwise. Multiplying by
//! `2^1074` makes every finite value an integer: `(-1)^s · m · 2^(max(e, 1) - 1)`.
//! Infinities (`e = 2047`, `f = 0`) are placed at `±2^2100`, beyond every
//! finite value (whose scaled magnitude is below `2^2098`).

use vstd::prelude::*;
use vstd::arithmetic::power2::{
    lemma2_to64, lemma2_to64_rest, lemma_pow2_adds, lemma_pow2_pos, lemma_pow2_strictly_increases, pow2,
};
use vstd::arithmetic::mul::{lemma_mul_inequality, lemma_mul_strict_inequality};
use crate::order::{
    ieee_le, ieee_lt, is_finite, is_nan, is_zero, lhs_key, magnitude, negative, rhs_key,
    signed_magnitude, lemma_order_keys_compare_as_ieee,
};

verus! {

/// The sign field (bit 63).
pub open spec fn sign_field(b: u64) -> u64 {
    b >> 63u64
}

/// The exponent field (bits 52 to 62).
pub open spec fn exponent_field(b: u64) -> u64 {
    (b >> 52u64) & 0x7ffu64
}

/// The fraction field (bits 0 to 51).
pub open spec fn fraction_field(b: u64) -> u64 {
    b & 0xf_ffff_ffff_ffffu64
}

/// IEEE-754 NaN: exponent field all ones and a nonzero fraction.
pub open spec fn is_nan_pattern(b: u64) -> bool {
    exponent_field(b) == 0x7ff && fraction_field(b) != 0
}

/// The significand as an integer: the fraction, with the hidden leading one
/// for normal numbers.
pub open spec fn significand(b: u64) -> nat {
    if exponent_field(b) == 0 {
        fraction_field(b) as nat
    } else {
        fraction_field(b) as nat + pow2(52)
    }
}

/// `|value| · 2^1074` for a finite pattern; `2^2100` for the patterns with
/// an all-ones exponent (infinities, and NaN, which no law below compares).
pub open spec fn scaled_abs(b: u64) -> nat {
    if exponent_field(b) == 0x7ff {
        pow2(2100)
    } else if exponent_field(b) == 0 {
        significand(b)
    } else {
        significand(b) * pow2((exponent_field(b) - 1) as nat)
    }
}

/// The real value of the pattern times `2^1074` (infinities at `±2^2100`).
pub open spec fn real_value(b: u64) -> int {
    if sign_field(b) == 1 {
        -(scaled_abs(b) as int)
    } else {
        scaled_abs(b) as int
    }
}

/// The floating-point `<`: false when either side is NaN, otherwise the
/// order of the real values.
pub open spec fn real_lt(a: u64, b: u64) -> bool {
    !is_nan_pattern(a) && !is_nan_pattern(b) && real_value(a) < real_value(b)
}

/// The floating-point `<=`.
pub open spec fn real_le(a: u64, b: u64) -> bool {
    !is_nan_pattern(a) && !is_nan_pattern(b) && real_value(a) <= real_value(b)
}

proof fn lemma_fields(b: u64)
    ensures
        magnitude(b) == exponent_field(b) * 0x10_0000_0000_0000 + fraction_field(b),
        exponent_field(b) <= 0x7ff,
        fraction_field(b) < 0x10_0000_0000_0000,
        sign_field(b) <= 1,
        negative(b) <==> sign_field(b) == 1,
{
    assert(b & 0x7fff_ffff_ffff_ffffu64 == ((b >> 52u64) & 0x7ffu64) * 0x10_0000_0000_0000u64 + (b
        & 0xf_ffff_ffff_ffffu64)) by (bit_vector);
    assert((b >> 52u64) & 0x7ffu64 <= 0x7ffu64) by (bit_vector);
    assert(b & 0xf_ffff_ffff_ffffu64 < 0x10_0000_0000_0000u64) by (bit_vector);
    assert(b >> 63u64 <= 1u64) by (bit_vector);
}

/// The NaN test on magnitudes is the IEEE-754 NaN test on fields.
pub proof fn lemma_is_nan_is_nan_pattern(b: u64)
    ensures
        is_nan(b) <==> is_nan_pattern(b),
{
    lemma_fields(b);
}

/// The finiteness test on magnitudes is the IEEE-754 test "exponent field
/// not all ones": every finite value passes, infinities and NaN fail.
pub proof fn lemma_is_finite_is_exponent_test(b: u64)
    ensures
        is_finite(b) <==> exponent_field(b) != 0x7ff,
{
    lemma_fields(b);
}

/// The zero test on magnitudes holds exactly for `+0` and `-0`: the patterns
/// whose real value is zero.
pub proof fn lemma_is_zero_is_real_zero(b: u64)
    ensures
        is_zero(b) <==> scaled_abs(b) == 0,
        is_zero(b) <==> real_value(b) == 0,
{
    lemma_fields(b);
    lemma_pow2_pos(52);
    lemma_pow2_pos(2100);
    if exponent_field(b) != 0 && exponent_field(b) != 0x7ff {
        lemma_pow2_pos((exponent_field(b) - 1) as nat);
        lemma_mul_strict_inequality(0, significand(b) as int, pow2((exponent_field(b) - 1) as nat) as int);
        assert(0 * pow2((exponent_field(b) - 1) as nat) == 0);
    }
}

proof fn lemma_finite_bound(b: u64)
    requires
        exponent_field(b) < 0x7ff,
    ensures
        scaled_abs(b) < pow2(2100),
{
    lemma_fields(b);
    lemma2_to64_rest();
    lemma_pow2_adds(53, 2045);
    lemma_pow2_strictly_increases(2098, 2100);
    assert(significand(b) < pow2(53));
    if exponent_field(b) == 0 {
        lemma_pow2_strictly_increases(53, 2100);
    } else {
        let e: nat = (exponent_field(b) - 1) as nat;
        lemma_pow2_pos(e);
        if e < 2045 {
            lemma_pow2_strictly_increases(e, 2045);
        }
        lemma_mul_inequality(pow2(e) as int, pow2(2045) as int, significand(b) as int);
        lemma_mul_strict_inequality(significand(b) as int, pow2(53) as int, pow2(2045) as int);
        assert(significand(b) * pow2(e) <= significand(b) * pow2(2045)) by {
            assert(pow2(e) * significand(b) <= pow2(2045) * significand(b));
        }
    }
}

/// A larger magnitude field means a strictly larger absolute value.
proof fn lemma_scaled_abs_strictly_monotone(a: u64, b: u64)
    requires
        !is_nan_pattern(a),
        !is_nan_pattern(b),
        magnitude(a) < magnitude(b),
    ensures
        scaled_abs(a) < scaled_abs(b),
{
    lemma_fields(a);
    lemma_fields(b);
    lemma2_to64();
    lemma2_to64_rest();
    let ea: u64 = exponent_field(a);
    let eb: u64 = exponent_field(b);
    assert(ea <= eb);
    if eb == 0x7ff {
        assert(ea < 0x7ff);
        lemma_finite_bound(a);
    } else if ea == eb {
        assert(fraction_field(a) < fraction_field(b));
        if ea != 0 {
            let e: nat = (ea - 1) as nat;
            lemma_pow2_pos(e);
            lemma_mul_strict_inequality(significand(a) as int, significand(b) as int, pow2(e) as int);
        }
    } else {
        // ea < eb < 2047, so b is a normal number: its significand is at least 2^52.
        assert(significand(b) >= pow2(52));
        let e2: nat = (eb - 1) as nat;
        lemma_pow2_pos(e2);
        lemma_mul_inequality(pow2(52) as int, significand(b) as int, pow2(e2) as int);
        if ea == 0 {
            assert(significand(a) < pow2(52));
            lemma_pow2_pos(0);
            if e2 > 0 {
                lemma_pow2_strictly_increases(0, e2);
            }
            lemma_mul_inequality(1, pow2(e2) as int, pow2(52) as int);
            assert(pow2(0) == 1);
        } else {
            let e1: nat = (ea - 1) as nat;
            lemma_pow2_pos(e1);
            assert(significand(a) < pow2(53));
            lemma_mul_strict_inequality(significand(a) as int, pow2(53) as int, pow2(e1) as int);
            lemma_pow2_adds(53, e1);
            lemma_pow2_adds(52, e1 + 1);
            if e1 + 1 < e2 {
                lemma_pow2_strictly_increases(e1 + 1, e2);
            }
            lemma_mul_inequality(pow2(e1 + 1) as int, pow2(e2) as int, pow2(52) as int);
            assert(pow2(52) * pow2(e1 + 1) <= pow2(52) * pow2(e2)) by {
                assert(pow2(e1 + 1) * pow2(52) <= pow2(e2) * pow2(52));
            }
        }
    }
}

/// Equal magnitude fields give equal absolute values.
proof fn lemma_scaled_abs_same_magnitude(a: u64, b: u64)
    requires
        magnitude(a) == magnitude(b),
    ensures
        scaled_abs(a) == scaled_abs(b),
{
    lemma_fields(a);
    lemma_fields(b);
}

/// The comparison `ieee_lt` on bit patterns is the floating-point `<` on
/// the real values they stand for, for every pair of patterns.
pub proof fn lemma_ieee_lt_is_real_lt(a: u64, b: u64)
    ensures
        ieee_lt(a, b) <==> real_lt(a, b),
        ieee_le(a, b) <==> real_le(a, b),
{
    lemma_fields(a);
    lemma_fields(b);
    lemma_is_nan_is_nan_pattern(a);
    lemma_is_nan_is_nan_pattern(b);
    lemma_is_zero_is_real_zero(a);
    lemma_is_zero_is_real_zero(b);
    if !is_nan_pattern(a) && !is_nan_pattern(b) {
        if magnitude(a) < magnitude(b) {
            lemma_scaled_abs_strictly_monotone(a, b);
        } else if magnitude(b) < magnitude(a) {
            lemma_scaled_abs_strictly_monotone(b, a);
        } else {
            lemma_scaled_abs_same_magnitude(a, b);
        }
    }
}

/// Clearing the sign bit keeps the exponent and fraction: the pattern
/// `magnitude(b)` stands for the absolute value of `b`.
pub proof fn lemma_magnitude_is_absolute_value(b: u64)
    ensures
        sign_field(magnitude(b)) == 0,
        exponent_field(magnitude(b)) == exponent_field(b),
        fraction_field(magnitude(b)) == fraction_field(b),
        scaled_abs(magnitude(b)) == scaled_abs(b),
        real_value(magnitude(b)) == scaled_abs(b),
        is_nan_pattern(magnitude(b)) == is_nan_pattern(b),
{
    assert((b & 0x7fff_ffff_ffff_ffffu64) >> 63u64 == 0u64) by (bit_vector);
    assert(((b & 0x7fff_ffff_ffff_ffffu64) >> 52u64) & 0x7ffu64 == (b >> 52u64) & 0x7ffu64)
        by (bit_vector);
    assert((b & 0x7fff_ffff_ffff_ffffu64) & 0xf_ffff_ffff_ffffu64 == b & 0xf_ffff_ffff_ffffu64)
        by (bit_vector);
}

/// Comparing the lhs key of `a` with the rhs key of `b` is the
/// floating-point `<` of the real values they stand for.
pub proof fn lemma_order_keys_follow_real_order(a: u64, b: u64)
    ensures
        (lhs_key(a) < rhs_key(b)) <==> real_lt(a, b),
{
    lemma_order_keys_compare_as_ieee(a, b);
    lemma_ieee_lt_is_real_lt(a, b);
}

} // verus!
