//! Verified core of the skyfix localization toolkit: the error vocabulary
//! shared by every estimator and its measurement-count admission rule, the
//! IEEE-754 comparison decisions of the dense solvers (pivot choice,
//! singularity, finiteness, largest log-weight), the stratum-to-ancestor
//! walk of systematic resampling, the reference pairing of UWB range
//! batches, and the argument checks of the CUDA front end. The comparison
//! decisions are proved against the real numbers that binary64 bit patterns
//! stand for (`float_value`).

pub mod error;
pub mod order;
pub mod float_value;
pub mod numeric;
pub mod resample;
pub mod uwb;
pub mod cuda;
