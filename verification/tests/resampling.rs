use skyfix::order::{lhs_order_key, rhs_order_key};
use skyfix::resample::systematic_ancestors;

fn bits(v: &[f64]) -> Vec<u64> {
    v.iter().map(|x| x.to_bits()).collect()
}

fn cdf_of(weights: &[f64]) -> Vec<f64> {
    let mut acc = 0.0;
    weights
        .iter()
        .map(|w| {
            acc += w;
            acc
        })
        .collect()
}

fn strata(u: f64, k: usize) -> Vec<f64> {
    let inv_k = 1.0 / k as f64;
    (0..k).map(|i| u * inv_k + i as f64 * inv_k).collect()
}

#[test]
fn uniform_weights_copy_each_particle_once() {
    let w = [0.25; 4];
    let r = systematic_ancestors(&bits(&cdf_of(&w)), &bits(&strata(0.5, 4)));
    assert_eq!(r, vec![0, 1, 2, 3]);
}

#[test]
fn dominant_particle_takes_every_stratum() {
    let w = [0.0, 1.0, 0.0, 0.0];
    let r = systematic_ancestors(&bits(&cdf_of(&w)), &bits(&strata(0.3, 4)));
    assert_eq!(r, vec![1, 1, 1, 1]);
}

#[test]
fn skewed_weights_give_sorted_ancestors() {
    let w = [0.1, 0.6, 0.05, 0.25];
    let r = systematic_ancestors(&bits(&cdf_of(&w)), &bits(&strata(0.5, 4)));
    // strata 0.125, 0.375, 0.625, 0.875; cdf 0.1, 0.7, 0.75, 1.0
    assert_eq!(r, vec![1, 1, 1, 3]);
}

#[test]
fn strata_past_the_cdf_clamp_to_last_particle() {
    let cdf = [0.2, 0.4, 0.6];
    let r = systematic_ancestors(&bits(&cdf), &bits(&[0.1, 0.9, 5.0]));
    assert_eq!(r, vec![0, 2, 2]);
}

#[test]
fn nan_in_cdf_stops_the_walk() {
    let cdf = [f64::NAN, 0.5, 1.0];
    let r = systematic_ancestors(&bits(&cdf), &bits(&[0.2, 0.7, 0.9]));
    assert_eq!(r, vec![0, 0, 0]);
}

#[test]
fn order_keys_agree_with_float_less_than() {
    let values = [
        f64::NEG_INFINITY,
        -1.0e300,
        -2.5,
        -f64::MIN_POSITIVE,
        -0.0,
        0.0,
        f64::MIN_POSITIVE / 4.0,
        1.0,
        1.0 + f64::EPSILON,
        3.75e12,
        f64::INFINITY,
        f64::NAN,
        -f64::NAN,
    ];
    for a in values {
        for b in values {
            let keyed = lhs_order_key(a.to_bits()) < rhs_order_key(b.to_bits());
            assert_eq!(keyed, a < b, "a = {a:?}, b = {b:?}");
        }
    }
}
