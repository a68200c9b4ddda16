//! Argument rules of the quantized ops and of slicing.
use vstd::prelude::*;

use crate::error::Error;
use crate::text::{chars_of, decimal, decimal_i64, decimal_u64, signed_decimal, string_of};

verus! {

/// Quantization scheme.
#[derive(Copy, Clone, Debug, PartialEq, Eq, Structural, Hash)]
pub enum QuantMode {
    /// `w = scale * q + bias`. The only mode that takes biases.
    Affine,
    /// OCP MX 4-bit float.
    Mxfp4,
    /// OCP MX 8-bit float.
    Mxfp8,
    /// NVIDIA 4-bit float.
    Nvfp4,
}

impl Default for QuantMode {
    fn default() -> (mode: Self)
        ensures
            mode == QuantMode::Affine,
    {
        QuantMode::Affine
    }
}

/// The mode string MLX matches on.
pub open spec fn mode_name(mode: QuantMode) -> Seq<char> {
    match mode {
        QuantMode::Affine => "affine"@,
        QuantMode::Mxfp4 => "mxfp4"@,
        QuantMode::Mxfp8 => "mxfp8"@,
        QuantMode::Nvfp4 => "nvfp4"@,
    }
}

/// Whether `mode` takes biases.
pub open spec fn takes_biases(mode: QuantMode) -> bool {
    mode == QuantMode::Affine
}

/// The `(group_size, bits)` that `mode` defaults to.
pub open spec fn mode_defaults(mode: QuantMode) -> (i32, i32) {
    match mode {
        QuantMode::Affine => (64, 4),
        QuantMode::Mxfp4 => (32, 4),
        QuantMode::Mxfp8 => (32, 8),
        QuantMode::Nvfp4 => (16, 4),
    }
}

impl QuantMode {
    /// The mode string as UTF-8.
    pub fn as_str(self) -> (name: &'static str)
        ensures
            name@ == mode_name(self),
    {
        match self {
            QuantMode::Affine => "affine",
            QuantMode::Mxfp4 => "mxfp4",
            QuantMode::Mxfp8 => "mxfp8",
            QuantMode::Nvfp4 => "nvfp4",
        }
    }

    /// Whether this mode takes biases. Only [`Affine`](Self::Affine) does.
    pub fn uses_biases(self) -> (takes: bool)
        ensures
            takes == takes_biases(self),
    {
        match self {
            QuantMode::Affine => true,
            _ => false,
        }
    }

    /// The `(group_size, bits)` this mode defaults to. Fixed by the format for
    /// every mode except [`Affine`](Self::Affine).
    pub fn default_params(self) -> (params: (i32, i32))
        ensures
            params == mode_defaults(self),
    {
        match self {
            QuantMode::Affine => (64, 4),
            QuantMode::Mxfp4 => (32, 4),
            QuantMode::Mxfp8 => (32, 8),
            QuantMode::Nvfp4 => (16, 4),
        }
    }
}

/// Parameters shared by the quantized ops. [`Default`] is `affine(64, 4)`.
#[derive(Copy, Clone, Debug, PartialEq, Eq, Structural, Hash)]
pub struct QuantConfig {
    /// Elements sharing one scale, along the last axis.
    pub group_size: i32,
    /// Bit width of each quantized code.
    pub bits: i32,
    /// The quantization scheme.
    pub mode: QuantMode,
}

impl Default for QuantConfig {
    fn default() -> (config: Self)
        ensures
            config == (QuantConfig { group_size: 64, bits: 4, mode: QuantMode::Affine }),
    {
        QuantConfig::with_defaults(QuantMode::Affine)
    }
}

/// Why `config` is refused when biases are (`has_biases`) or are not given, or
/// `None` when it is accepted. The checks run in this order.
pub open spec fn config_problem(config: QuantConfig, has_biases: bool) -> Option<Seq<char>> {
    let name = mode_name(config.mode);
    let (group_size, bits) = mode_defaults(config.mode);
    if config.group_size <= 0 || config.bits <= 0 {
        Some(
            name + " quantization needs positive group_size and bits, got "@ + signed_decimal(
                config.group_size as int,
            ) + " and "@ + signed_decimal(config.bits as int),
        )
    } else if takes_biases(config.mode) && !has_biases {
        Some(name + " quantization requires biases"@)
    } else if !takes_biases(config.mode) && has_biases {
        Some(name + " quantization must not be given biases"@)
    } else if !takes_biases(config.mode) && (config.group_size != group_size || config.bits
        != bits) {
        Some(
            name + " quantization is fixed at group_size "@ + signed_decimal(group_size as int)
                + " and bits "@ + signed_decimal(bits as int) + ", got "@ + signed_decimal(
                config.group_size as int,
            ) + " and "@ + signed_decimal(config.bits as int),
        )
    } else {
        None
    }
}

fn push_all(out: &mut Vec<char>, text: &str)
    ensures
        final(out)@ == old(out)@ + text@,
{
    let mut tail = chars_of(text);
    out.append(&mut tail);
}

fn push_i32(out: &mut Vec<char>, value: i32)
    ensures
        final(out)@ == old(out)@ + signed_decimal(value as int),
{
    let mut digits = decimal_i64(value as i64);
    out.append(&mut digits);
}

impl QuantConfig {
    /// Affine quantization with the given group size and bit width.
    pub fn affine(group_size: i32, bits: i32) -> (config: Self)
        ensures
            config == (QuantConfig { group_size, bits, mode: QuantMode::Affine }),
    {
        QuantConfig { group_size, bits, mode: QuantMode::Affine }
    }

    /// A config for `mode` using [`QuantMode::default_params`].
    pub fn with_defaults(mode: QuantMode) -> (config: Self)
        ensures
            config.mode == mode,
            (config.group_size, config.bits) == mode_defaults(mode),
    {
        let (group_size, bits) = mode.default_params();
        QuantConfig { group_size, bits, mode }
    }

    /// The config a quantized op runs with, `config` or else the default
    /// `affine(64, 4)`, once it has passed [`validate`](Self::validate)
    /// against `biases`.
    ///
    /// # Errors
    ///
    /// Those of [`validate`](Self::validate) for the config chosen.
    pub fn resolve<B>(config: Option<QuantConfig>, biases: Option<&B>) -> (out: Result<QuantConfig, Error>)
        ensures
            ({
                let chosen = match config {
                    Some(c) => c,
                    None => QuantConfig { group_size: 64, bits: 4, mode: QuantMode::Affine },
                };
                match config_problem(chosen, biases is Some) {
                    None => out == Ok::<QuantConfig, Error>(chosen),
                    Some(message) => out is Err && out->Err_0.is_invalid_with(message),
                }
            }),
            out is Ok ==> out->Ok_0.group_size > 0 && out->Ok_0.bits > 0,
            config is None ==> (out is Ok <==> biases is Some),
            config matches Some(c) && (c.group_size <= 0 || c.bits <= 0) ==> out is Err,
    {
        let chosen = match config {
            Some(c) => c,
            None => QuantConfig::with_defaults(QuantMode::Affine),
        };
        match chosen.validate(biases) {
            Ok(()) => Ok(chosen),
            Err(error) => Err(error),
        }
    }


    /// Check this config against `biases`.
    ///
    /// # Errors
    ///
    /// If `group_size` or `bits` is not positive, if `biases` is present for a
    /// mode that takes none (or absent for [`Affine`](QuantMode::Affine)), or if
    /// a non-affine mode's layout differs from [`QuantMode::default_params`].
    pub fn validate<B>(&self, biases: Option<&B>) -> (out: Result<(), Error>)
        ensures
            match config_problem(*self, biases is Some) {
                None => out is Ok,
                Some(message) => out is Err && out->Err_0.is_invalid_with(message),
            },
            out is Ok ==> self.group_size > 0 && self.bits > 0,
            out is Ok ==> (biases is Some <==> self.mode == QuantMode::Affine),
            self.group_size <= 0 || self.bits <= 0 ==> out is Err,
    {
        let name = self.mode.as_str();
        if self.group_size <= 0 || self.bits <= 0 {
            let mut message = chars_of(name);
            push_all(&mut message, " quantization needs positive group_size and bits, got ");
            push_i32(&mut message, self.group_size);
            push_all(&mut message, " and ");
            push_i32(&mut message, self.bits);
            return Err(Error::Invalid(string_of(&message)));
        }
        let takes = self.mode.uses_biases();
        if takes && biases.is_none() {
            let mut message = chars_of(name);
            push_all(&mut message, " quantization requires biases");
            return Err(Error::Invalid(string_of(&message)));
        }
        if !takes && biases.is_some() {
            let mut message = chars_of(name);
            push_all(&mut message, " quantization must not be given biases");
            return Err(Error::Invalid(string_of(&message)));
        }
        if !takes {
            let (group_size, bits) = self.mode.default_params();
            if self.group_size != group_size || self.bits != bits {
                let mut message = chars_of(name);
                push_all(&mut message, " quantization is fixed at group_size ");
                push_i32(&mut message, group_size);
                push_all(&mut message, " and bits ");
                push_i32(&mut message, bits);
                push_all(&mut message, ", got ");
                push_i32(&mut message, self.group_size);
                push_all(&mut message, " and ");
                push_i32(&mut message, self.bits);
                return Err(Error::Invalid(string_of(&message)));
            }
        }
        Ok(())
    }
}

/// Every mode accepts its own defaults, given biases exactly when it takes
/// them.
pub proof fn lemma_defaults_validate(mode: QuantMode)
    ensures
        config_problem(
            QuantConfig { group_size: mode_defaults(mode).0, bits: mode_defaults(mode).1, mode },
            takes_biases(mode),
        ) is None,
{
}

/// Whether biases are given is all that `validate` reads of them; and a
/// non-affine mode accepts exactly its own fixed layout, without biases.
pub proof fn lemma_fixed_modes_accept_only_their_layout(config: QuantConfig)
    requires
        !takes_biases(config.mode),
    ensures
        config_problem(config, false) is None <==> (config.group_size, config.bits)
            == mode_defaults(config.mode),
        config_problem(config, true) is Some,
{
}

/// A config that is accepted has a positive group size and a positive bit
/// width, whatever its mode and whether or not biases are given; and it is
/// given biases exactly when its mode is affine.
pub proof fn lemma_accepted_configs_are_positive(config: QuantConfig, has_biases: bool)
    requires
        config_problem(config, has_biases) is None,
    ensures
        config.group_size > 0,
        config.bits > 0,
        has_biases <==> config.mode == QuantMode::Affine,
{
}

/// A config with a group size or bit width that is not positive is refused,
/// for every mode, with or without biases.
pub proof fn lemma_nonpositive_configs_are_refused(config: QuantConfig, has_biases: bool)
    requires
        config.group_size <= 0 || config.bits <= 0,
    ensures
        config_problem(config, has_biases) is Some,
{
}


/// The message for a quantize call that returned too few arrays.
pub open spec fn short_quantize_message(returned: nat) -> Seq<char> {
    "mlx_quantize returned "@ + decimal(returned) + " arrays, expected at least 2"@
}

/// Read the number of arrays `mlx_quantize` returned: the weights and scales
/// always, and biases when there is a third.
///
/// # Errors
///
/// If fewer than two came back.
pub fn quantize_outputs(returned: usize) -> (out: Result<bool, Error>)
    ensures
        returned < 2 ==> out is Err && out->Err_0.is_invalid_with(
            short_quantize_message(returned as nat),
        ),
        returned >= 2 ==> out == Ok::<bool, Error>(returned > 2),
{
    if returned < 2 {
        let mut message = chars_of("mlx_quantize returned ");
        let mut count = decimal_u64(returned as u64);
        message.append(&mut count);
        push_all(&mut message, " arrays, expected at least 2");
        return Err(Error::Invalid(string_of(&message)));
    }
    Ok(returned > 2)
}

/// Check the per-axis arguments of a strided slice.
///
/// # Errors
///
/// If `start`, `stop` and `strides` do not all have the same length.
pub fn check_slice(start: &[i32], stop: &[i32], strides: &[i32]) -> (out: Result<(), Error>)
    ensures
        out is Ok <==> (start@.len() == stop@.len() && start@.len() == strides@.len()),
        out is Err ==> out->Err_0.is_invalid_with(
            "slice start/stop/strides must have equal length"@,
        ),
{
    if start.len() != stop.len() || start.len() != strides.len() {
        return Err(Error::Invalid(string_of(&chars_of("slice start/stop/strides must have equal length"))));
    }
    Ok(())
}

} // verus!
