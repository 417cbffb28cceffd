use cudarc::driver::{sys::CUresult, DriverError};
use skyfix::cuda::{anchor_count_check, grid_cell_count, noise_buffer_check, particle_buffer_count, CudaError};

#[test]
fn cuda_pf_rejects_bad_size() {
    assert!(matches!(particle_buffer_count(0), Err(CudaError::NoParticles)));
    assert!(matches!(particle_buffer_count(3), Err(CudaError::SizeMismatch { .. })));

    let k = particle_buffer_count(2 * 8).expect("ok");
    assert!(matches!(
        noise_buffer_check(k, 5),
        Err(CudaError::SizeMismatch { expected: 16, got: 5 })
    ));
}

#[test]
fn gpu_gdop_rejects_empty_inputs() {
    assert!(matches!(grid_cell_count(0, 1), Err(CudaError::EmptyGrid)));
    assert!(matches!(anchor_count_check(0), Err(CudaError::NoAnchors)));
}

#[test]
fn particle_buffer_sizes() {
    assert!(matches!(particle_buffer_count(3), Err(CudaError::SizeMismatch { expected: 4, got: 3 })));
    assert!(matches!(particle_buffer_count(512), Ok(256)));
    assert!(matches!(particle_buffer_count(2), Ok(1)));
    assert!(matches!(noise_buffer_check(256, 512), Ok(())));
}

#[test]
fn grid_sizes_and_anchor_counts() {
    assert!(matches!(grid_cell_count(1, 0), Err(CudaError::EmptyGrid)));
    assert!(matches!(grid_cell_count(0, 0), Err(CudaError::EmptyGrid)));
    assert!(matches!(grid_cell_count(200, 150), Ok(30_000)));
    assert!(matches!(anchor_count_check(4), Ok(())));
}

#[test]
fn cuda_error_messages() {
    assert_eq!(CudaError::EmptyGrid.message(""), "grid must contain at least one cell");
    assert_eq!(CudaError::NoAnchors.message("ignored"), "at least one anchor is required");
    assert_eq!(
        CudaError::SizeMismatch { expected: 16, got: 5 }.message(""),
        "size mismatch: expected 16, got 5"
    );
    assert_eq!(
        CudaError::NoParticles.message(""),
        "particle filter initialized with zero particles"
    );
}

#[test]
fn driver_error_message_appends_the_driver_text() {
    let e = CudaError::Driver(DriverError(CUresult::CUDA_ERROR_UNKNOWN));
    assert_eq!(
        e.message("DriverError(CUDA_ERROR_UNKNOWN, \"unknown error\")"),
        "CUDA driver error: DriverError(CUDA_ERROR_UNKNOWN, \"unknown error\")"
    );
    assert_eq!(e.message(""), "CUDA driver error: ");
    let converted: CudaError = DriverError(CUresult::CUDA_ERROR_INVALID_VALUE).into();
    assert!(matches!(converted, CudaError::Driver(_)));
}
