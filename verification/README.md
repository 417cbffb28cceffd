# skyfix

UAV localization toolkit: range / bearing / RSSI measurements in, position
estimate out (closed-form trilateration, Chan and Foy TDoA, Stansfield AoA,
Gauss-Newton, EKF / UKF / ESKF / particle filter, CRLB / GDOP analysis, UWB
adapter, CUDA sweeps).

## Layout

- `src/` — the library verified with Verus. It holds these decisions of
  the toolkit, none of which depends on floating-point arithmetic:
  - `error`: the shared `EstimationError`, its messages, and the
    measurement-count admission rule used by every estimator;
  - `order`: IEEE-754 `<` on binary64 bit patterns, through order keys;
  - `numeric`: pivot choice and singularity verdict of Gauss elimination,
    the largest-value scan, the finiteness rule of closed-form estimators;
  - `resample`: the stratum-to-ancestor walk of systematic resampling;
  - `uwb`: reference pairing of a batch of UWB ranges into TDoA slots;
  - `cuda`: the CUDA front end's error type and buffer / grid checks.
- `app/` — ordinary Rust: the floating-point estimators and filters (generic
  over nalgebra's `RealField`), the simulator and the demo program, and the
  CUDA device code. It calls the library for the decisions above.
- `tests/` — tests of the library.
