use skyfix::error::{append_decimal, require_measurements, EstimationError};

#[test]
fn insufficient_measurements_message_names_both_counts() {
    let e = EstimationError::InsufficientMeasurements { needed: 3, got: 2 };
    assert_eq!(e.message(), "insufficient measurements: need at least 3, got 2");
}

#[test]
fn other_error_messages() {
    assert_eq!(
        EstimationError::SingularSystem.message(),
        "singular linear system (anchors degenerate)"
    );
    assert_eq!(
        EstimationError::NonFinite.message(),
        "estimator produced a non-finite value"
    );
    assert_eq!(
        EstimationError::DidNotConverge.message(),
        "iterative estimator did not converge within max_iters"
    );
}

#[test]
fn decimal_rendering_of_counts() {
    for (n, text) in [(0usize, "0"), (7, "7"), (10, "10"), (1234, "1234"), (1_000_000, "1000000")] {
        let mut s = String::from("n=");
        append_decimal(&mut s, n);
        assert_eq!(s, format!("n={text}"));
    }
    let mut s = String::new();
    append_decimal(&mut s, usize::MAX);
    assert_eq!(s, usize::MAX.to_string());
}

#[test]
fn admission_rule_accepts_enough_and_refuses_too_few() {
    assert_eq!(require_measurements(3, 3), Ok(()));
    assert_eq!(require_measurements(3, 10), Ok(()));
    assert_eq!(require_measurements(0, 0), Ok(()));
    assert_eq!(
        require_measurements(3, 2),
        Err(EstimationError::InsufficientMeasurements { needed: 3, got: 2 })
    );
    assert_eq!(
        require_measurements(1, 0),
        Err(EstimationError::InsufficientMeasurements { needed: 1, got: 0 })
    );
}
