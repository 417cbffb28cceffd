use skyfix::error::EstimationError;
use skyfix::numeric::{first_max_index, pivot_row, require_finite};

fn bits(v: &[f64]) -> Vec<u64> {
    v.iter().map(|x| x.to_bits()).collect()
}

#[test]
fn pivot_is_largest_absolute_value() {
    assert_eq!(pivot_row(&bits(&[1.0, -3.0, 2.0])), Some(1));
    assert_eq!(pivot_row(&bits(&[4.0, -3.0, 2.0])), Some(0));
    assert_eq!(pivot_row(&bits(&[2.0, -2.0, 2.0])), Some(0));
    assert_eq!(pivot_row(&bits(&[0.0, 0.0, -5.0])), Some(2));
}

#[test]
fn all_zero_column_is_singular() {
    assert_eq!(pivot_row(&bits(&[0.0, -0.0, 0.0])), None);
    assert_eq!(pivot_row(&bits(&[0.0])), None);
}

#[test]
fn nan_on_the_diagonal_is_kept_as_pivot() {
    assert_eq!(pivot_row(&bits(&[f64::NAN, 3.0])), Some(0));
    assert_eq!(pivot_row(&bits(&[1.0, f64::NAN, 3.0])), Some(2));
}

#[test]
fn first_max_index_scans_for_strict_increase() {
    assert_eq!(first_max_index(&bits(&[-3.0, -1.0, -2.0])), 1);
    assert_eq!(first_max_index(&bits(&[-1.0, -1.0])), 0);
    assert_eq!(first_max_index(&bits(&[f64::NEG_INFINITY, -700.0, -699.5, -800.0])), 2);
    assert_eq!(first_max_index(&bits(&[5.0])), 0);
}

#[test]
fn finiteness_rule() {
    assert_eq!(require_finite(&bits(&[1.0, -2.0, 0.0])), Ok(()));
    assert_eq!(require_finite(&[]), Ok(()));
    assert_eq!(require_finite(&bits(&[1.0, f64::NAN])), Err(EstimationError::NonFinite));
    assert_eq!(require_finite(&bits(&[f64::INFINITY, 0.0])), Err(EstimationError::NonFinite));
    assert_eq!(require_finite(&bits(&[-f64::INFINITY])), Err(EstimationError::NonFinite));
    assert_eq!(require_finite(&bits(&[f64::MAX, f64::MIN])), Ok(()));
}
