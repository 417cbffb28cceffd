//! Reference pairing of a batch of UWB range observations.
//!
//! A TDoA batch for Chan / Foy is formed by taking the first range of the
//! batch as the reference and pairing every later range against it. The
//! arithmetic of one pair (a range difference) is supplied by the caller as
//! `pair`; this module owns which ranges are paired, where each result is
//! written and when the batch is refused.

use vstd::prelude::*;

verus! {

/// Whether a batch of `n_ranges` ranges can be written into an output buffer
/// of `out_len` slots: at least two ranges, and room for one measurement per
/// non-reference range.
pub open spec fn batch_fits(n_ranges: nat, out_len: nat) -> bool {
    n_ranges >= 2 && out_len >= n_ranges - 1
}

/// A batch is refused only when it has fewer than two ranges or the output
/// has fewer slots than non-reference ranges; every other batch fits.
pub proof fn lemma_batch_fits_exactly(n_ranges: nat, out_len: nat)
    ensures
        batch_fits(n_ranges, out_len) <==> (n_ranges >= 2 && out_len + 1 >= n_ranges),
{
}

/// Converts a batch of ranges that share the reference `ranges[0]` into
/// `ranges.len() - 1` measurements: slot `i` of `output` receives
/// `pair(&ranges[0], &ranges[i + 1])`.
///
/// Returns the number of measurements written, or `None` (leaving `output`
/// untouched) when fewer than two ranges are given or `output` is too short.
/// Slots past the written prefix keep their contents.
pub fn ranges_to_tdoa_batch<R, M, F>(ranges: &[R], output: &mut [M], pair: F) -> (r: Option<usize>)
    where
        F: Fn(&R, &R) -> M,
    requires
        forall|i: int|
            1 <= i < ranges@.len() ==> call_requires(pair, (&ranges@[0], #[trigger] &ranges@[i])),
    ensures
        r is None <==> !batch_fits(ranges@.len(), old(output)@.len()),
        r is None <==> (ranges@.len() < 2 || old(output)@.len() + 1 < ranges@.len()),
        (ranges@.len() >= 2 && old(output)@.len() + 1 >= ranges@.len()) ==> r == Some(
            (ranges@.len() - 1) as usize,
        ),
        r is None ==> final(output)@ == old(output)@,
        r matches Some(n) ==> {
            &&& n == ranges@.len() - 1
            &&& final(output)@.len() == old(output)@.len()
            &&& forall|i: int|
                0 <= i < n ==> call_ensures(
                    pair,
                    (&ranges@[0], &ranges@[i + 1]),
                    #[trigger] final(output)@[i],
                )
            &&& forall|i: int| n <= i < old(output)@.len() ==> #[trigger] final(output)@[i] == old(output)@[i]
        },
{
    if ranges.len() < 2 {
        return None;
    }
    let needed: usize = ranges.len() - 1;
    if output.len() < needed {
        return None;
    }
    let reference = &ranges[0];
    let mut i: usize = 0;
    while i < needed
        invariant
            needed == ranges@.len() - 1,
            needed <= output@.len(),
            output@.len() == old(output)@.len(),
            i <= needed,
            forall|j: int|
                1 <= j < ranges@.len() ==> call_requires(pair, (&ranges@[0], #[trigger] &ranges@[j])),
            *reference == ranges@[0],
            forall|j: int|
                0 <= j < i ==> call_ensures(pair, (&ranges@[0], &ranges@[j + 1]), #[trigger] output@[j]),
            forall|j: int| i <= j < output@.len() ==> #[trigger] output@[j] == old(output)@[j],
        decreases needed - i,
    {
        let m = pair(reference, &ranges[i + 1]);
        output[i] = m;
        i = i + 1;
    }
    Some(needed)
}

} // verus!
