//! Decisions of the dense solvers that depend only on comparisons of the
//! values involved: the choice of the pivot row in Gauss elimination with
//! partial pivoting, the search for the largest log-weight before the
//! log-sum-exp normalisation, and the finiteness check that closed-form
//! estimators apply to their result. Values are handed over as binary64 bit
//! patterns (`f64::to_bits`); comparisons follow IEEE-754 (see
//! [`crate::order`]).

use vstd::prelude::*;
use crate::error::EstimationError;
use crate::float_value::{
    exponent_field, is_nan_pattern, real_le, real_lt, scaled_abs, lemma_ieee_lt_is_real_lt,
    lemma_is_finite_is_exponent_test, lemma_is_nan_is_nan_pattern, lemma_is_zero_is_real_zero,
    lemma_magnitude_is_absolute_value,
};
use crate::order::{
    magnitude, ieee_le, ieee_lt, is_finite, is_nan, is_zero, lhs_key, lhs_order_key,
    rhs_order_key, lemma_order_keys_compare_as_ieee, INFINITY_BITS, MAGNITUDE_MASK,
};

verus! {

/// The index that a left-to-right scan for the largest of `s[0..n)` keeps:
/// it starts at index 0 and moves to a later index only when that value is
/// strictly greater (IEEE `>`) than the one it holds.
pub open spec fn scan_max(s: Seq<u64>, n: int) -> int
    decreases n,
{
    if n <= 1 {
        0
    } else {
        let m: int = scan_max(s, n - 1);
        if ieee_lt(s[m], s[n - 1]) {
            n - 1
        } else {
            m
        }
    }
}

proof fn lemma_scan_max_bounds(s: Seq<u64>, n: int)
    requires
        1 <= n <= s.len(),
    ensures
        0 <= scan_max(s, n) < n,
    decreases n,
{
    if n > 1 {
        lemma_scan_max_bounds(s, n - 1);
    }
}

/// Index of the largest value of `s` (the first of several equal largest
/// values), as the scan `if s[i] > max { max = s[i] }` finds it.
pub fn first_max_index(s: &[u64]) -> (r: usize)
    requires
        s@.len() > 0,
    ensures
        r as int == scan_max(s@, s@.len() as int),
        r < s@.len(),
        (forall|i: int| 0 <= i < s@.len() ==> !is_nan_pattern(#[trigger] s@[i])) ==> {
            &&& forall|i: int| 0 <= i < s@.len() ==> real_le(#[trigger] s@[i], s@[r as int])
            &&& forall|i: int| 0 <= i < r ==> real_lt(#[trigger] s@[i], s@[r as int])
        },
{
    let n: usize = s.len();
    let mut best: usize = 0;
    let mut best_key = lhs_order_key(s[0]);
    let mut i: usize = 1;
    while i < n
        invariant
            n == s@.len(),
            1 <= i <= n,
            best as int == scan_max(s@, i as int),
            best < i,
            best_key == lhs_key(s@[best as int]),
        decreases n - i,
    {
        let k: u64 = rhs_order_key(s[i]);
        proof {
            lemma_order_keys_compare_as_ieee(s@[best as int], s@[i as int]);
        }
        if best_key < k {
            best = i;
            best_key = lhs_order_key(s[i]);
        }
        i = i + 1;
    }
    proof {
        lemma_scan_max_real(s@, n as int);
    }
    best
}

/// Without NaN, the scan finds a largest value under the real order, and the
/// first index that holds one.
pub proof fn lemma_scan_max_real(s: Seq<u64>, n: int)
    requires
        1 <= n <= s.len(),
    ensures
        (forall|i: int| 0 <= i < n ==> !is_nan_pattern(#[trigger] s[i])) ==> {
            &&& 0 <= scan_max(s, n) < n
            &&& forall|i: int| 0 <= i < n ==> real_le(#[trigger] s[i], s[scan_max(s, n)])
            &&& forall|i: int| 0 <= i < scan_max(s, n) ==> real_lt(#[trigger] s[i], s[scan_max(s, n)])
        },
{
    if forall|i: int| 0 <= i < n ==> !is_nan_pattern(#[trigger] s[i]) {
        lemma_scan_max_bounds(s, n);
        assert forall|i: int| 0 <= i < n implies !is_nan(#[trigger] s[i]) by {
            lemma_is_nan_is_nan_pattern(s[i]);
        }
        lemma_scan_max_is_first_maximum(s, n);
        let m: int = scan_max(s, n);
        assert forall|i: int| 0 <= i < n implies real_le(#[trigger] s[i], s[m]) by {
            lemma_ieee_lt_is_real_lt(s[i], s[m]);
        }
        assert forall|i: int| 0 <= i < m implies real_lt(#[trigger] s[i], s[m]) by {
            lemma_ieee_lt_is_real_lt(s[i], s[m]);
        }
    }
}

/// Without NaN among them, the scan finds a largest value, and the first
/// index that holds one.
pub proof fn lemma_scan_max_is_first_maximum(s: Seq<u64>, n: int)
    requires
        1 <= n <= s.len(),
        forall|i: int| 0 <= i < n ==> !is_nan(#[trigger] s[i]),
    ensures
        forall|i: int| 0 <= i < n ==> ieee_le(#[trigger] s[i], s[scan_max(s, n)]),
        forall|i: int| 0 <= i < scan_max(s, n) ==> ieee_lt(#[trigger] s[i], s[scan_max(s, n)]),
    decreases n,
{
    lemma_scan_max_bounds(s, n);
    if n > 1 {
        lemma_scan_max_is_first_maximum(s, n - 1);
        lemma_scan_max_bounds(s, n - 1);
    }
}

/// Pivot row for eliminating one column: `column` holds the bit patterns of
/// the entries from the diagonal down. The pivot is the entry of largest
/// absolute value (the first of equal ones); `None` when that absolute value
/// is zero, i.e. the system is singular. The result is relative to the
/// diagonal row. The absolute value of an entry is its bit pattern with the
/// sign bit cleared (`magnitude`).
pub fn pivot_row(column: &[u64]) -> (r: Option<usize>)
    requires
        column@.len() > 0,
    ensures
        ({
            let mags = column@.map_values(|b: u64| magnitude(b));
            let m: int = scan_max(mags, column@.len() as int);
            &&& r is None <==> is_zero(mags[m])
            &&& r matches Some(p) ==> p as int == m
        }),
        (forall|i: int| 0 <= i < column@.len() ==> !is_nan_pattern(#[trigger] column@[i])) ==> {
            &&& r is None <==> forall|i: int| 0 <= i < column@.len() ==> scaled_abs(#[trigger] column@[i]) == 0
            &&& r matches Some(p) ==> {
                &&& p < column@.len()
                &&& forall|i: int| 0 <= i < column@.len() ==> scaled_abs(#[trigger] column@[i]) <= scaled_abs(column@[p as int])
                &&& forall|i: int| 0 <= i < p ==> scaled_abs(#[trigger] column@[i]) < scaled_abs(column@[p as int])
            }
        },
{
    let ghost mags = column@.map_values(|b: u64| magnitude(b));
    let n: usize = column.len();
    let mut best: usize = 0;
    let mut best_mag: u64 = column[0] & MAGNITUDE_MASK;
    let mut best_key: u64 = lhs_order_key(best_mag);
    let mut i: usize = 1;
    while i < n
        invariant
            n == column@.len(),
            mags == column@.map_values(|b: u64| magnitude(b)),
            1 <= i <= n,
            best as int == scan_max(mags, i as int),
            best < i,
            best_mag == mags[best as int],
            best_key == lhs_key(best_mag),
        decreases n - i,
    {
        let mag: u64 = column[i] & MAGNITUDE_MASK;
        let k: u64 = rhs_order_key(mag);
        proof {
            assert(mag == mags[i as int]);
            lemma_order_keys_compare_as_ieee(best_mag, mag);
        }
        if best_key < k {
            best = i;
            best_mag = mag;
            best_key = lhs_order_key(mag);
        }
        i = i + 1;
    }
    proof {
        // Clearing the sign bit twice changes nothing.
        let b: u64 = column@[best as int];
        assert((b & 0x7fff_ffff_ffff_ffffu64) & 0x7fff_ffff_ffff_ffffu64 == b
            & 0x7fff_ffff_ffff_ffffu64) by (bit_vector);
    }
    proof {
        lemma_pivot_real(column@, mags);
    }
    if best_mag == 0 {
        None
    } else {
        Some(best)
    }
}

/// Without NaN, the pivot scan over absolute values picks the first entry of
/// largest absolute value, and that largest absolute value is zero exactly
/// when every entry is `±0`.
proof fn lemma_pivot_real(column: Seq<u64>, mags: Seq<u64>)
    requires
        column.len() > 0,
        mags == column.map_values(|b: u64| magnitude(b)),
    ensures
        (forall|i: int| 0 <= i < column.len() ==> !is_nan_pattern(#[trigger] column[i])) ==> {
            let m: int = scan_max(mags, column.len() as int);
            &&& 0 <= m < column.len()
            &&& is_zero(mags[m]) <==> forall|i: int| 0 <= i < column.len() ==> scaled_abs(#[trigger] column[i]) == 0
            &&& forall|i: int| 0 <= i < column.len() ==> scaled_abs(#[trigger] column[i]) <= scaled_abs(column[m])
            &&& forall|i: int| 0 <= i < m ==> scaled_abs(#[trigger] column[i]) < scaled_abs(column[m])
        },
{
    let n: int = column.len() as int;
    if forall|i: int| 0 <= i < n ==> !is_nan_pattern(#[trigger] column[i]) {
        assert forall|i: int| 0 <= i < n implies !is_nan_pattern(#[trigger] mags[i]) by {
            lemma_magnitude_is_absolute_value(column[i]);
        }
        lemma_scan_max_real(mags, n);
        let m: int = scan_max(mags, n);
        lemma_magnitude_is_absolute_value(column[m]);
        assert forall|i: int| 0 <= i < n implies scaled_abs(#[trigger] column[i]) <= scaled_abs(column[m]) by {
            lemma_magnitude_is_absolute_value(column[i]);
            assert(real_le(mags[i], mags[m]));
        }
        assert forall|i: int| 0 <= i < m implies scaled_abs(#[trigger] column[i]) < scaled_abs(column[m]) by {
            lemma_magnitude_is_absolute_value(column[i]);
            assert(real_lt(mags[i], mags[m]));
        }
        lemma_is_zero_is_real_zero(mags[m]);
    }
}

/// The finiteness rule of the closed-form estimators: a result whose
/// components (bit patterns in `values`) are all finite is accepted, any
/// infinite or NaN component yields `NonFinite`.
pub fn require_finite(values: &[u64]) -> (r: Result<(), EstimationError>)
    ensures
        r is Ok <==> forall|i: int| 0 <= i < values@.len() ==> is_finite(#[trigger] values@[i]),
        r is Ok <==> forall|i: int| 0 <= i < values@.len() ==> exponent_field(#[trigger] values@[i]) != 0x7ff,
        r is Err ==> r == Err::<(), EstimationError>(EstimationError::NonFinite),
{
    let mut i: usize = 0;
    while i < values.len()
        invariant
            i <= values@.len(),
            forall|t: int| 0 <= t < i ==> is_finite(#[trigger] values@[t]),
        decreases values@.len() - i,
    {
        if values[i] & MAGNITUDE_MASK >= INFINITY_BITS {
            proof {
                lemma_is_finite_is_exponent_test(values@[i as int]);
            }
            return Err(EstimationError::NonFinite);
        }
        i = i + 1;
    }
    proof {
        assert forall|t: int| 0 <= t < values@.len() implies exponent_field(#[trigger] values@[t]) != 0x7ff by {
            lemma_is_finite_is_exponent_test(values@[t]);
        }
    }
    Ok(())
}

} // verus!
