//! Ancestor selection of systematic resampling.
//!
//! Systematic resampling draws one uniform offset and places `K` evenly
//! spaced strata `u_i` on the weighted CDF; stratum `i` copies the particle
//! whose CDF bucket first reaches `u_i`. The CDF values and the strata are
//! binary64 numbers, handed over as their bit patterns (`f64::to_bits`);
//! comparisons follow IEEE-754 `<` exactly (see [`crate::order`]).

use vstd::prelude::*;
use crate::float_value::{is_nan_pattern, real_le, real_lt, lemma_ieee_lt_is_real_lt};
use crate::order::{
    ieee_le, ieee_lt, lhs_order_key, rhs_key, rhs_order_key,
    lemma_order_keys_compare_as_ieee,
};

verus! {

/// Where the walk stops for a stratum `u`: the first index at or after
/// `start` whose CDF value is not below `u`, or the last index.
pub open spec fn first_reaching(cdf: Seq<u64>, start: int, u: u64) -> int
    recommends
        0 <= start < cdf.len(),
    decreases cdf.len() - start,
{
    if start + 1 >= cdf.len() || start < 0 {
        start
    } else if !ieee_lt(cdf[start], u) {
        start
    } else {
        first_reaching(cdf, start + 1, u)
    }
}

/// Ancestor indices of the strata: each stratum starts its walk where the
/// previous stratum's walk stopped (the first starts at index 0).
pub open spec fn ancestors(cdf: Seq<u64>, strata: Seq<u64>) -> Seq<int>
    decreases strata.len(),
{
    if strata.len() == 0 {
        Seq::empty()
    } else {
        let prev = ancestors(cdf, strata.drop_last());
        let start: int = if prev.len() == 0 { 0 } else { prev.last() };
        prev.push(first_reaching(cdf, start, strata.last()))
    }
}

/// Strata that are numbers (no NaN) and never decrease, as systematic
/// strata `u_0 + i / K` do.
pub open spec fn nondecreasing(s: Seq<u64>) -> bool {
    forall|i: int, j: int| 0 <= i <= j < s.len() ==> ieee_le(#[trigger] s[i], #[trigger] s[j])
}

/// `j` is the least index that is the last index or whose CDF value is not
/// below `u`: the bucket that `u` selects when searched from the start.
pub open spec fn is_first_bucket(cdf: Seq<u64>, u: u64, j: int) -> bool {
    &&& 0 <= j < cdf.len()
    &&& (j == cdf.len() - 1 || !ieee_lt(cdf[j], u))
    &&& forall|k: int| 0 <= k < j ==> ieee_lt(#[trigger] cdf[k], u)
}

/// Strata that are numbers (no NaN) and never decrease as real numbers.
pub open spec fn real_nondecreasing(s: Seq<u64>) -> bool {
    &&& forall|i: int| 0 <= i < s.len() ==> !is_nan_pattern(#[trigger] s[i])
    &&& forall|i: int, j: int| 0 <= i <= j < s.len() ==> real_le(#[trigger] s[i], #[trigger] s[j])
}

/// `j` is the least particle index that is the last one or whose cumulative
/// weight is, as a real number, not below the stratum `u`.
pub open spec fn is_first_real_bucket(cdf: Seq<u64>, u: u64, j: int) -> bool {
    &&& 0 <= j < cdf.len()
    &&& (j == cdf.len() - 1 || !real_lt(cdf[j], u))
    &&& forall|k: int| 0 <= k < j ==> real_lt(#[trigger] cdf[k], u)
}

proof fn lemma_first_reaching_bounds(cdf: Seq<u64>, start: int, u: u64)
    requires
        0 <= start < cdf.len(),
    ensures
        start <= first_reaching(cdf, start, u) < cdf.len(),
        forall|k: int| start <= k < first_reaching(cdf, start, u) ==> ieee_lt(#[trigger] cdf[k], u),
        first_reaching(cdf, start, u) == cdf.len() - 1 || !ieee_lt(
            cdf[first_reaching(cdf, start, u)],
            u,
        ),
    decreases cdf.len() - start,
{
    if start + 1 < cdf.len() && ieee_lt(cdf[start], u) {
        lemma_first_reaching_bounds(cdf, start + 1, u);
    }
}

proof fn lemma_ancestors_len(cdf: Seq<u64>, strata: Seq<u64>)
    requires
        cdf.len() > 0,
    ensures
        ancestors(cdf, strata).len() == strata.len(),
        forall|i: int| 0 <= i < strata.len() ==> 0 <= #[trigger] ancestors(cdf, strata)[i] < cdf.len(),
    decreases strata.len(),
{
    if strata.len() > 0 {
        let prev = ancestors(cdf, strata.drop_last());
        lemma_ancestors_len(cdf, strata.drop_last());
        let start: int = if prev.len() == 0 { 0 } else { prev.last() };
        lemma_first_reaching_bounds(cdf, start, strata.last());
    }
}

/// Ancestor indices for systematic resampling. `cdf_bits` holds the bit
/// patterns of the cumulative weights (one per particle), `stratum_bits`
/// those of the strata; entry `i` of the result is the index of the particle
/// that stratum `i` copies.
pub fn systematic_ancestors(cdf_bits: &[u64], stratum_bits: &[u64]) -> (r: Vec<usize>)
    requires
        cdf_bits@.len() > 0,
    ensures
        r@.len() == stratum_bits@.len(),
        forall|i: int|
            0 <= i < r@.len() ==> #[trigger] r@[i] as int == ancestors(cdf_bits@, stratum_bits@)[i],
        forall|i: int| 0 <= i < r@.len() ==> #[trigger] r@[i] < cdf_bits@.len(),
        forall|i: int, j: int| 0 <= i <= j < r@.len() ==> r@[i] <= r@[j],
        real_nondecreasing(stratum_bits@) ==> forall|i: int|
            0 <= i < r@.len() ==> is_first_real_bucket(cdf_bits@, stratum_bits@[i], #[trigger] r@[i] as int),
{
    let k: usize = cdf_bits.len();
    let mut out: Vec<usize> = Vec::new();
    let mut j: usize = 0;
    let mut i: usize = 0;
    while i < stratum_bits.len()
        invariant
            k == cdf_bits@.len(),
            k > 0,
            i <= stratum_bits@.len(),
            out@.len() == i,
            j < k,
            i > 0 ==> j == out@[i - 1],
            i == 0 ==> j == 0,
            ancestors(cdf_bits@, stratum_bits@.take(i as int)).len() == i,
            forall|s: int|
                0 <= s < i ==> #[trigger] out@[s] as int == ancestors(
                    cdf_bits@,
                    stratum_bits@.take(i as int),
                )[s],
            forall|s: int| 0 <= s < i ==> #[trigger] out@[s] < k,
        decreases stratum_bits@.len() - i,
    {
        let u: u64 = stratum_bits[i];
        let uk: u64 = rhs_order_key(u);
        let ghost start = j as int;
        while j + 1 < k && lhs_order_key(cdf_bits[j]) < uk
            invariant
                k == cdf_bits@.len(),
                uk == rhs_key(u),
                0 <= start <= j < k,
                first_reaching(cdf_bits@, j as int, u) == first_reaching(cdf_bits@, start, u),
            decreases k - j,
        {
            proof {
                lemma_order_keys_compare_as_ieee(cdf_bits@[j as int], u);
            }
            j = j + 1;
        }
        proof {
            lemma_order_keys_compare_as_ieee(cdf_bits@[j as int], u);
            let s1 = stratum_bits@.take(i as int + 1);
            assert(s1.drop_last() =~= stratum_bits@.take(i as int));
            assert(s1.last() == u);
            lemma_ancestors_len(cdf_bits@, stratum_bits@.take(i as int));
            let prev = ancestors(cdf_bits@, stratum_bits@.take(i as int));
            if i > 0 {
                assert(prev.last() == out@[i - 1] as int);
            }
            assert(first_reaching(cdf_bits@, j as int, u) == j as int);
            assert(ancestors(cdf_bits@, s1) == prev.push(j as int));
        }
        out.push(j);
        i = i + 1;
    }
    proof {
        assert(stratum_bits@.take(i as int) =~= stratum_bits@);
        lemma_ancestors_sorted(cdf_bits@, stratum_bits@);
        lemma_ancestors_are_first_real_buckets(cdf_bits@, stratum_bits@);
        assert forall|a: int, b: int| 0 <= a <= b < out@.len() implies out@[a] <= out@[b] by {
            assert(out@[a] as int == ancestors(cdf_bits@, stratum_bits@)[a]);
            assert(out@[b] as int == ancestors(cdf_bits@, stratum_bits@)[b]);
        }
    }
    out
}

/// Every ancestor is a valid particle index and the ancestors never
/// decrease: systematic resampling keeps the copies of one particle
/// contiguous and in particle order.
pub proof fn lemma_ancestors_sorted(cdf: Seq<u64>, strata: Seq<u64>)
    requires
        cdf.len() > 0,
    ensures
        ancestors(cdf, strata).len() == strata.len(),
        forall|i: int| 0 <= i < strata.len() ==> 0 <= #[trigger] ancestors(cdf, strata)[i] < cdf.len(),
        forall|i: int, j: int|
            0 <= i <= j < strata.len() ==> ancestors(cdf, strata)[i] <= ancestors(cdf, strata)[j],
    decreases strata.len(),
{
    lemma_ancestors_len(cdf, strata);
    if strata.len() > 0 {
        let prev = ancestors(cdf, strata.drop_last());
        lemma_ancestors_sorted(cdf, strata.drop_last());
        let start: int = if prev.len() == 0 { 0 } else { prev.last() };
        lemma_first_reaching_bounds(cdf, start, strata.last());
        assert forall|i: int, j: int|
            0 <= i <= j < strata.len() implies ancestors(cdf, strata)[i] <= ancestors(cdf, strata)[j] by {
            if j < strata.len() - 1 {
            } else if i < j {
                assert(ancestors(cdf, strata)[i] == prev[i]);
            }
        }
    }
}

/// With nondecreasing strata, carrying the walk over from one stratum to the
/// next changes nothing: stratum `i` selects exactly the first CDF bucket
/// that reaches `u_i`, as a search from the start of the CDF would.
pub proof fn lemma_ancestors_are_first_buckets(cdf: Seq<u64>, strata: Seq<u64>)
    requires
        cdf.len() > 0,
        nondecreasing(strata),
    ensures
        forall|i: int|
            0 <= i < strata.len() ==> is_first_bucket(cdf, strata[i], #[trigger] ancestors(cdf, strata)[i]),
    decreases strata.len(),
{
    lemma_ancestors_len(cdf, strata);
    if strata.len() > 0 {
        let pre = strata.drop_last();
        let prev = ancestors(cdf, pre);
        assert(nondecreasing(pre)) by {
            assert forall|i: int, j: int| 0 <= i <= j < pre.len() implies ieee_le(#[trigger] pre[i], #[trigger] pre[j]) by {
                assert(pre[i] == strata[i] && pre[j] == strata[j]);
            }
        }
        lemma_ancestors_are_first_buckets(cdf, pre);
        lemma_ancestors_len(cdf, pre);
        let start: int = if prev.len() == 0 { 0 } else { prev.last() };
        let u: u64 = strata.last();
        lemma_first_reaching_bounds(cdf, start, u);
        assert forall|i: int| 0 <= i < strata.len() implies is_first_bucket(
            cdf,
            strata[i],
            #[trigger] ancestors(cdf, strata)[i],
        ) by {
            if i < strata.len() - 1 {
                assert(ancestors(cdf, strata)[i] == prev[i]);
                assert(strata[i] == pre[i]);
            } else {
                let a: int = ancestors(cdf, strata)[i];
                assert(a == first_reaching(cdf, start, u));
                if prev.len() > 0 {
                    let p: int = prev.len() - 1;
                    assert(is_first_bucket(cdf, pre[p], prev[p]));
                    assert(ieee_le(strata[p], strata[strata.len() - 1]));
                    assert(pre[p] == strata[p]);
                    assert forall|k: int| 0 <= k < a implies ieee_lt(#[trigger] cdf[k], u) by {
                        if k < start {
                            assert(ieee_lt(cdf[k], pre[p]));
                        }
                    }
                }
            }
        }
    }
}

/// Systematic resampling, stated on the real numbers: with strata that are
/// numbers and never decrease, stratum `i` copies the first particle whose
/// cumulative weight is at least `u_i` (the last particle when none is).
pub proof fn lemma_ancestors_are_first_real_buckets(cdf: Seq<u64>, strata: Seq<u64>)
    requires
        cdf.len() > 0,
    ensures
        real_nondecreasing(strata) ==> forall|i: int|
            0 <= i < strata.len() ==> is_first_real_bucket(cdf, strata[i], #[trigger] ancestors(cdf, strata)[i]),
{
    if real_nondecreasing(strata) {
        assert(nondecreasing(strata)) by {
            assert forall|i: int, j: int| 0 <= i <= j < strata.len() implies ieee_le(#[trigger] strata[i], #[trigger] strata[j]) by {
                lemma_ieee_lt_is_real_lt(strata[i], strata[j]);
                assert(real_le(strata[i], strata[j]));
            }
        }
        lemma_ancestors_are_first_buckets(cdf, strata);
        assert forall|i: int| 0 <= i < strata.len() implies is_first_real_bucket(cdf, strata[i], #[trigger] ancestors(cdf, strata)[i]) by {
            let a: int = ancestors(cdf, strata)[i];
            let u: u64 = strata[i];
            assert(is_first_bucket(cdf, u, a));
            lemma_ieee_lt_is_real_lt(cdf[a], u);
            assert forall|k: int| 0 <= k < a implies real_lt(#[trigger] cdf[k], u) by {
                lemma_ieee_lt_is_real_lt(cdf[k], u);
            }
        }
    }
}

} // verus!
