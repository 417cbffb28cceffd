//! Argument checks of the CUDA front end (GDOP grid sweep and range-only
//! particle filter), and its error vocabulary.
//!
//! Device work itself (context creation, transfers, kernel launches) is not
//! part of this module; what is here decides, from the sizes of the host
//! buffers a caller hands over, whether that work may start and how many
//! particles or grid cells it covers.

use vstd::prelude::*;
use cudarc::driver::DriverError;
use crate::error::{append_decimal, decimal};

verus! {

/// The CUDA driver's error code, carried opaquely.
#[verifier::external_type_specification]
#[verifier::external_body]
pub struct ExDriverError(DriverError);

/// Error type for the CUDA operations.
#[derive(Debug)]
pub enum CudaError {
    /// Underlying CUDA driver failure (launch, allocation, copy, etc.).
    Driver(DriverError),
    /// Empty grid supplied to a sweep.
    EmptyGrid,
    /// Empty anchor list.
    NoAnchors,
    /// A particle-filter input slice has the wrong length for the configured K.
    SizeMismatch { expected: usize, got: usize },
    /// The particle filter was initialized with zero particles.
    NoParticles,
}

impl From<DriverError> for CudaError {
    fn from(e: DriverError) -> (r: Self) {
        CudaError::Driver(e)
    }
}

impl vstd::std_specs::convert::FromSpecImpl<DriverError> for CudaError {
    open spec fn obeys_from_spec() -> bool {
        true
    }

    open spec fn from_spec(v: DriverError) -> Self {
        CudaError::Driver(v)
    }
}

/// The description of an error. For a driver failure it is the prefix
/// `"CUDA driver error: "` followed by `driver_text`, the driver's own text for
/// the failure code; `driver_text` plays no part in the other variants.
pub open spec fn cuda_message_text(e: CudaError, driver_text: Seq<char>) -> Seq<char> {
    match e {
        CudaError::Driver(_) => "CUDA driver error: "@ + driver_text,
        CudaError::EmptyGrid => "grid must contain at least one cell"@,
        CudaError::NoAnchors => "at least one anchor is required"@,
        CudaError::SizeMismatch { expected, got } => "size mismatch: expected "@ + decimal(
            expected as nat,
        ) + ", got "@ + decimal(got as nat),
        CudaError::NoParticles => "particle filter initialized with zero particles"@,
    }
}

impl CudaError {
    /// The human-readable description of this error. For a driver failure,
    /// `driver_text` is the driver's own text for the failure code (what
    /// cudarc's `DriverError` displays, which the driver library found at run
    /// time supplies); it is appended to the prefix `"CUDA driver error: "`.
    /// The other variants ignore it.
    pub fn message(&self, driver_text: &str) -> (s: String)
        ensures
            s@ == cuda_message_text(*self, driver_text@),
    {
        match self {
            CudaError::Driver(_) => {
                let mut s = String::from_str("CUDA driver error: ");
                s.append(driver_text);
                s
            },
            CudaError::EmptyGrid => String::from_str("grid must contain at least one cell"),
            CudaError::NoAnchors => String::from_str("at least one anchor is required"),
            CudaError::SizeMismatch { expected, got } => {
                let mut s = String::from_str("size mismatch: expected ");
                append_decimal(&mut s, *expected);
                s.append(", got ");
                append_decimal(&mut s, *got);
                s
            },
            CudaError::NoParticles => String::from_str(
                "particle filter initialized with zero particles",
            ),
        }
    }
}

/// Checks a flat `(x, y)` particle buffer of `len` values and returns the
/// particle count `K = len / 2`.
///
/// An empty buffer is refused with `NoParticles`; a buffer of odd length with
/// `SizeMismatch { expected: len + 1, got: len }`.
pub fn particle_buffer_count(len: usize) -> (r: Result<usize, CudaError>)
    requires
        len < usize::MAX,
    ensures
        len == 0 ==> r matches Err(CudaError::NoParticles),
        len > 0 && len % 2 == 1 ==> r == Err::<usize, CudaError>(
            CudaError::SizeMismatch { expected: (len + 1) as usize, got: len },
        ),
        len > 0 && len % 2 == 0 ==> r == Ok::<usize, CudaError>((len / 2) as usize),
{
    if len == 0 {
        return Err(CudaError::NoParticles);
    }
    if len % 2 != 0 {
        return Err(CudaError::SizeMismatch { expected: len + 1, got: len });
    }
    Ok(len / 2)
}

/// Checks that a buffer of standard-normal samples for one predict step of
/// `k` particles holds exactly `2 * k` values (one pair per particle).
pub fn noise_buffer_check(k: usize, len: usize) -> (r: Result<(), CudaError>)
    requires
        2 * k <= usize::MAX,
    ensures
        len == 2 * k ==> r is Ok,
        len != 2 * k ==> r == Err::<(), CudaError>(
            CudaError::SizeMismatch { expected: (2 * k) as usize, got: len },
        ),
{
    let expected: usize = 2 * k;
    if len != expected {
        return Err(CudaError::SizeMismatch { expected, got: len });
    }
    Ok(())
}

/// Checks the axes of a GDOP sweep and returns the number of grid cells,
/// `nx * ny`. A grid with an empty axis is refused with `EmptyGrid`.
pub fn grid_cell_count(nx: usize, ny: usize) -> (r: Result<usize, CudaError>)
    requires
        nx * ny <= usize::MAX,
    ensures
        (nx == 0 || ny == 0) ==> r matches Err(CudaError::EmptyGrid),
        (nx > 0 && ny > 0) ==> r == Ok::<usize, CudaError>((nx * ny) as usize),
{
    if nx == 0 || ny == 0 {
        return Err(CudaError::EmptyGrid);
    }
    Ok(nx * ny)
}

/// Checks the anchor set of a GDOP sweep: at least one anchor is required.
pub fn anchor_count_check(n: usize) -> (r: Result<(), CudaError>)
    ensures
        n == 0 ==> r matches Err(CudaError::NoAnchors),
        n > 0 ==> r is Ok,
{
    if n == 0 {
        return Err(CudaError::NoAnchors);
    }
    Ok(())
}

} // verus!
