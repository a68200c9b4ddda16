//! The quantization modes and configurations.

use mlx::ops::{quantize_outputs, QuantConfig, QuantMode};

#[test]
fn mode_names_match_what_mlx_matches_on() {
    assert_eq!(QuantMode::Affine.as_str(), "affine");
    assert_eq!(QuantMode::Mxfp4.as_str(), "mxfp4");
    assert_eq!(QuantMode::Mxfp8.as_str(), "mxfp8");
    assert_eq!(QuantMode::Nvfp4.as_str(), "nvfp4");
}

#[test]
fn default_config_is_affine_64_4() {
    assert_eq!(QuantConfig::default(), QuantConfig::affine(64, 4));
    assert_eq!(QuantMode::default(), QuantMode::Affine);
    let config = QuantConfig::with_defaults(QuantMode::Nvfp4);
    assert_eq!(config, QuantConfig { group_size: 16, bits: 4, mode: QuantMode::Nvfp4 });
}

#[test]
fn quantize_reports_biases_only_from_a_third_output() {
    assert_eq!(quantize_outputs(2).unwrap(), false);
    assert_eq!(quantize_outputs(3).unwrap(), true);
    assert_eq!(
        quantize_outputs(1).unwrap_err().to_string(),
        "mlx_quantize returned 1 arrays, expected at least 2"
    );
    assert!(quantize_outputs(0).is_err());
}

#[test]
fn a_missing_config_is_the_affine_default_and_is_validated() {
    let biases = 0u8;
    let chosen = QuantConfig::resolve(None, Some(&biases)).unwrap();
    assert_eq!((chosen.group_size, chosen.bits, chosen.mode), (64, 4, QuantMode::Affine));
    let refusal = QuantConfig::resolve::<u8>(None, None).unwrap_err();
    assert_eq!(refusal.to_string(), "affine quantization requires biases");
    let given = QuantConfig::with_defaults(QuantMode::Mxfp4);
    let kept = QuantConfig::resolve::<u8>(Some(given), None).unwrap();
    assert_eq!((kept.group_size, kept.bits, kept.mode), (given.group_size, given.bits, QuantMode::Mxfp4));
    assert!(QuantConfig::resolve(Some(given), Some(&biases)).is_err());
}
