//! Rejection cases: arguments refused before they reach MLX.

use mlx::array::check_upload;
use mlx::ops::{check_slice, QuantConfig, QuantMode};

/// Stands in for the biases array that a quantize call produces.
struct Biases;

/// None of these reach MLX, so none may be reported as an MLX error.
#[test]
fn invalid_arguments_are_rejected_without_blaming_mlx() {
    let cases = [
        // Rejected, not clamped: clamping would make both sides zero.
        ("negative dimension", check_upload(&[-1], 0).unwrap_err()),
        // Release builds do not trap overflow, so the product is checked.
        ("overflows usize", check_upload(&[i32::MAX, i32::MAX, i32::MAX], 1).unwrap_err()),
        ("implies 4 elements but 3 were given", check_upload(&[2, 2], 3).unwrap_err()),
        ("equal length", check_slice(&[0, 0], &[2], &[1, 1]).unwrap_err()),
    ];

    for (expected, error) in cases {
        let message = error.to_string();
        assert!(message.contains(expected), "expected {expected:?}, got: {message}");
        assert!(!message.starts_with("mlx:"), "our own precondition blames MLX: {message}");
    }
}

/// The fp formats fix their own layouts, and `QuantMode::default_params` is the
/// only place that records them. Each mode's defaults must also pass
/// `QuantConfig::validate`, or the table and the validator disagree.
#[test]
fn the_mode_table_and_the_validator_agree() {
    assert_eq!(QuantMode::Affine.default_params(), (64, 4));
    assert_eq!(QuantMode::Mxfp4.default_params(), (32, 4));
    assert_eq!(QuantMode::Mxfp8.default_params(), (32, 8));
    assert_eq!(QuantMode::Nvfp4.default_params(), (16, 4));

    let biases = Biases;
    for mode in [QuantMode::Affine, QuantMode::Mxfp4, QuantMode::Mxfp8, QuantMode::Nvfp4] {
        assert_eq!(
            mode.uses_biases(),
            mode == QuantMode::Affine,
            "{mode:?} disagrees about taking biases"
        );
        let config = QuantConfig::with_defaults(mode);
        let stand_in = mode.uses_biases().then_some(&biases);
        if let Err(error) = config.validate(stand_in) {
            panic!("{mode:?} rejects its own defaults: {}", error.to_string());
        }
    }
}

#[test]
fn validation_rejects_mismatched_biases_and_layouts() {
    let biases = Biases;
    let affine = QuantConfig::affine(64, 4);
    let message = affine.validate::<Biases>(None).unwrap_err().to_string();
    assert_eq!(message, "affine quantization requires biases");

    let mxfp4 = QuantConfig::with_defaults(QuantMode::Mxfp4);
    let message = mxfp4.validate(Some(&biases)).unwrap_err().to_string();
    assert_eq!(message, "mxfp4 quantization must not be given biases");

    let wrong_layout = QuantConfig { group_size: 64, bits: 4, mode: QuantMode::Mxfp4 };
    let message = wrong_layout.validate::<Biases>(None).unwrap_err().to_string();
    assert_eq!(message, "mxfp4 quantization is fixed at group_size 32 and bits 4, got 64 and 4");
    assert!(message.contains("fixed at group_size 32"));

    let message = QuantConfig::affine(0, 4).validate(Some(&biases)).unwrap_err().to_string();
    assert_eq!(message, "affine quantization needs positive group_size and bits, got 0 and 4");

    // The positivity check comes first, even when biases are also wrong.
    let message = QuantConfig::with_defaults(QuantMode::Nvfp4);
    let bad = QuantConfig { group_size: -3, ..message };
    assert_eq!(
        bad.validate(Some(&biases)).unwrap_err().to_string(),
        "nvfp4 quantization needs positive group_size and bits, got -3 and 4"
    );

    assert!(QuantConfig::affine(32, 8).validate(Some(&biases)).is_ok());
    assert!(QuantConfig::with_defaults(QuantMode::Mxfp8).validate::<Biases>(None).is_ok());
}
