//! The error type, dtype codes, and the slot for MLX's reports.

use mlx::dtype::{optional_dtype, Dtype};
use mlx::error::{reject_nul, ErrorSlot};
use mlx::fft::FftNorm;
use mlx::metal::MemoryStats;
use mlx::Error;

#[test]
fn errors_display_like_their_variants() {
    assert_eq!(Error::Mlx { message: "boom".to_string() }.to_string(), "mlx: boom");
    assert_eq!(Error::Invalid("bad".to_string()).to_string(), "bad");
    assert_eq!(Error::UnsupportedDtype(99).to_string(), "mlx: unsupported dtype code 99");
}

#[test]
fn dtype_codes_round_trip() {
    let all = [
        Dtype::Bool, Dtype::Uint8, Dtype::Uint16, Dtype::Uint32, Dtype::Uint64, Dtype::Int8,
        Dtype::Int16, Dtype::Int32, Dtype::Int64, Dtype::Float16, Dtype::Float32, Dtype::Float64,
        Dtype::Bfloat16, Dtype::Complex64,
    ];
    for (code, dtype) in all.iter().enumerate() {
        assert_eq!(dtype.raw(), code as u32);
        assert_eq!(Dtype::from_raw(dtype.raw()).unwrap(), *dtype);
    }
    assert_eq!(Dtype::Float32.raw(), 10);
    assert_eq!(Dtype::Bfloat16.name(), "Bfloat16");
    assert!(matches!(Dtype::from_raw(14), Err(Error::UnsupportedDtype(14))));
    assert!(matches!(Dtype::from_raw(u32::MAX), Err(Error::UnsupportedDtype(u32::MAX))));
}

#[test]
fn a_failed_call_blames_the_recorded_message() {
    let mut slot = ErrorSlot::new();
    assert!(slot.check(0).is_ok());

    // Nothing recorded: the status is named.
    match slot.check(-3) {
        Err(Error::Mlx { message }) => assert_eq!(message, "call failed with status -3"),
        _ => panic!("expected an MLX error"),
    }

    slot.record(Some("[matmul] shapes do not match"));
    match slot.check(1) {
        Err(Error::Mlx { message }) => assert_eq!(message, "[matmul] shapes do not match"),
        _ => panic!("expected an MLX error"),
    }
    // The message was taken with the failure.
    assert_eq!(slot.take_last_error(), None);

    slot.record(None);
    assert_eq!(slot.take_last_error(), Some("(null)".to_string()));

    // A stale message is cleared before the next call.
    slot.record(Some("stale"));
    slot.clear_last_error();
    match slot.check(2) {
        Err(Error::Mlx { message }) => assert_eq!(message, "call failed with status 2"),
        _ => panic!("expected an MLX error"),
    }

    // A success leaves a recorded message alone.
    slot.record(Some("kept"));
    assert!(slot.check(0).is_ok());
    assert_eq!(slot.take_last_error(), Some("kept".to_string()));
}

#[test]
fn nul_bytes_are_refused_for_c_strings() {
    assert!(reject_nul("weights.safetensors", "path").is_ok());
    assert_eq!(
        reject_nul("bad\0path", "path").unwrap_err().to_string(),
        "path contains a NUL"
    );
}

#[test]
fn fft_norm_codes() {
    assert_eq!(FftNorm::default(), FftNorm::Backward);
    assert_eq!(FftNorm::Backward.raw(), 0);
    assert_eq!(FftNorm::Ortho.raw(), 1);
    assert_eq!(FftNorm::Forward.raw(), 2);
}

#[test]
fn memory_stats_compare_by_field() {
    let stats = MemoryStats { active: 1, cached: 2, peak: 3, limit: 4 };
    assert_eq!(stats, MemoryStats { active: 1, cached: 2, peak: 3, limit: 4 });
    assert_ne!(stats, MemoryStats { limit: 5, ..stats });
}

#[test]
fn optional_dtypes_default_to_float32_codes() {
    assert_eq!(optional_dtype(None), (10, false));
    assert_eq!(optional_dtype(Some(Dtype::Int8)), (5, true));
}
