//! Errors that can arise during position estimation, and the admission rule
//! that every estimator applies to the size of its measurement batch.

use vstd::prelude::*;

verus! {

/// Errors that can arise during position estimation.
#[non_exhaustive]
#[derive(Debug, Clone, Copy, PartialEq, Eq, Structural)]
pub enum EstimationError {
    /// Fewer measurements supplied than the chosen estimator requires.
    InsufficientMeasurements {
        /// Minimum number of measurements the estimator needs.
        needed: usize,
        /// Number of measurements actually supplied.
        got: usize,
    },
    /// The underlying linear system has no unique solution (e.g. colinear
    /// anchors in 2D, coplanar anchors in 3D).
    SingularSystem,
    /// The estimator produced a non-finite value (NaN or infinity).
    NonFinite,
    /// An iterative estimator exhausted its iteration budget without
    /// converging within its tolerance.
    DidNotConverge,
}

/// The character of a decimal digit `d < 10`.
pub open spec fn digit_char(d: nat) -> char {
    ((d + 48) as u32) as char
}

/// Base-10 rendering of `n`, most significant digit first, no leading zeros.
pub open spec fn decimal(n: nat) -> Seq<char>
    decreases n,
{
    if n < 10 {
        seq![digit_char(n)]
    } else {
        decimal(n / 10) + seq![digit_char(n % 10)]
    }
}

/// The human-readable description of an error.
pub open spec fn message_text(e: EstimationError) -> Seq<char> {
    match e {
        EstimationError::InsufficientMeasurements { needed, got } =>
            "insufficient measurements: need at least "@ + decimal(needed as nat) + ", got "@
                + decimal(got as nat),
        EstimationError::SingularSystem => "singular linear system (anchors degenerate)"@,
        EstimationError::NonFinite => "estimator produced a non-finite value"@,
        EstimationError::DidNotConverge => "iterative estimator did not converge within max_iters"@,
    }
}

fn digit_str(d: usize) -> (s: &'static str)
    requires
        d < 10,
    ensures
        s@ == seq![digit_char(d as nat)],
{
    proof {
        reveal_strlit("0");
        reveal_strlit("1");
        reveal_strlit("2");
        reveal_strlit("3");
        reveal_strlit("4");
        reveal_strlit("5");
        reveal_strlit("6");
        reveal_strlit("7");
        reveal_strlit("8");
        reveal_strlit("9");
    }
    match d {
        0 => "0",
        1 => "1",
        2 => "2",
        3 => "3",
        4 => "4",
        5 => "5",
        6 => "6",
        7 => "7",
        8 => "8",
        _ => "9",
    }
}

/// Appends the decimal rendering of `n` to `out`.
pub fn append_decimal(out: &mut String, n: usize)
    ensures
        final(out)@ == old(out)@ + decimal(n as nat),
    decreases n,
{
    if n >= 10 {
        append_decimal(out, n / 10);
    }
    let d = digit_str(n % 10);
    out.append(d);
    proof {
        assert(old(out)@ + decimal(n as nat) =~= old(out)@ + (if n < 10 { seq![digit_char(n as nat)] } else {
            decimal((n / 10) as nat) + seq![digit_char((n % 10) as nat)]
        }));
    }
}

impl EstimationError {
    /// The human-readable description of this error, as shown to users.
    pub fn message(&self) -> (s: String)
        ensures
            s@ == message_text(*self),
    {
        match self {
            EstimationError::InsufficientMeasurements { needed, got } => {
                let mut s = String::from_str("insufficient measurements: need at least ");
                append_decimal(&mut s, *needed);
                s.append(", got ");
                append_decimal(&mut s, *got);
                s
            },
            EstimationError::SingularSystem => String::from_str(
                "singular linear system (anchors degenerate)",
            ),
            EstimationError::NonFinite => String::from_str("estimator produced a non-finite value"),
            EstimationError::DidNotConverge => String::from_str(
                "iterative estimator did not converge within max_iters",
            ),
        }
    }
}

/// The admission rule that every estimator applies to its batch: a batch of
/// `got` measurements is accepted exactly when it holds at least `needed`.
pub fn require_measurements(needed: usize, got: usize) -> (r: Result<(), EstimationError>)
    ensures
        r is Ok <==> got >= needed,
        r is Err ==> r == Err::<(), EstimationError>(
            EstimationError::InsufficientMeasurements { needed, got },
        ),
{
    if got < needed {
        Err(EstimationError::InsufficientMeasurements { needed, got })
    } else {
        Ok(())
    }
}

} // verus!
