//! The macOS deployment target and the NAX kernels it gates.
use vstd::prelude::*;

use crate::text::{chars_of, parse_u32, parsed_u32, split, split_on, string_of, trim, trimmed};

verus! {

/// MLX gates the NAX (Metal 4 tensor-op) quantized kernels behind this
/// deployment target; below it, MLX compiles with `MLX_METAL_NO_NAX` and those
/// kernels silently do not exist.
pub const NAX_MIN_DEPLOYMENT_TARGET: (u32, u32) = (26, 2);

/// The deployment target used when none is set.
pub const DEFAULT_DEPLOYMENT_TARGET: &'static str = "26.4";

/// A parsed number, or 0 when the text is not one.
pub open spec fn number_or_zero(text: Seq<char>) -> u32 {
    match parsed_u32(text) {
        Some(n) => n,
        None => 0,
    }
}

/// The `(major, minor)` a version string names: the first two `.`-separated
/// fields of the trimmed text, each 0 when missing or not a number.
pub open spec fn version_of(version: Seq<char>) -> (u32, u32) {
    let parts = split_on(trimmed(version), '.');
    (number_or_zero(parts[0]), if parts.len() > 1 { number_or_zero(parts[1]) } else { 0 })
}

/// Whether `(major, minor)` is at least `(min_major, min_minor)`, comparing
/// the major numbers first.
pub open spec fn version_at_least(version: (u32, u32), minimum: (u32, u32)) -> bool {
    version.0 > minimum.0 || (version.0 == minimum.0 && version.1 >= minimum.1)
}

proof fn lemma_split_nonempty(s: Seq<char>, sep: char)
    ensures
        split_on(s, sep).len() >= 1,
{
    crate::text::lemma_find_char_bounds(s, sep);
}

fn number_from(text: &[char]) -> (n: u32)
    ensures
        n == number_or_zero(text@),
{
    match parse_u32(text) {
        Some(n) => n,
        None => 0,
    }
}

/// The `(major, minor)` a version string names.
pub fn parse_version(version: &str) -> (parsed: (u32, u32))
    ensures
        parsed == version_of(version@),
{
    let trimmed_version = trim(&chars_of(version));
    let parts = split(&trimmed_version, '.');
    proof {
        lemma_split_nonempty(trimmed_version@, '.');
        assert(parts@.len() == split_on(trimmed_version@, '.').len());
        assert(parts@[0]@ == split_on(trimmed_version@, '.')[0]);
    }
    let major = number_from(&parts[0]);
    let minor = if parts.len() > 1 {
        assert(parts@[1]@ == split_on(trimmed_version@, '.')[1]);
        number_from(&parts[1])
    } else {
        0
    };
    (major, minor)
}

/// Whether a deployment target is new enough for the NAX kernels.
pub fn supports_nax(deployment_target: &str) -> (b: bool)
    ensures
        b == version_at_least(version_of(deployment_target@), (26, 2)),
{
    let (major, minor) = parse_version(deployment_target);
    major > 26 || (major == 26 && minor >= 2)
}

/// Whether the SDK whose version `xcrun` reported (if it could) supports NAX,
/// which it gates independently of the deployment target.
pub fn sdk_supports_nax(sdk_version: Option<&str>) -> (out: Option<bool>)
    ensures
        match sdk_version {
            Some(version) => out == Some(version_at_least(version_of(version@), (26, 2))),
            None => out is None,
        },
{
    match sdk_version {
        Some(version) => Some(supports_nax(version)),
        None => None,
    }
}

/// The deployment target to build for, given `MACOSX_DEPLOYMENT_TARGET` if it
/// is set: the set value unless it is blank, else [`DEFAULT_DEPLOYMENT_TARGET`].
pub fn deployment_target(env_value: Option<&str>) -> (target: String)
    ensures
        target@ == match env_value {
            Some(value) => if trimmed(value@).len() > 0 { value@ } else { "26.4"@ },
            None => "26.4"@,
        },
{
    if let Some(value) = env_value {
        let chars = chars_of(value);
        let trimmed_value = trim(&chars);
        if trimmed_value.len() > 0 {
            return string_of(&chars);
        }
    }
    string_of(&chars_of(DEFAULT_DEPLOYMENT_TARGET))
}

fn push_all(out: &mut Vec<char>, text: &str)
    ensures
        final(out)@ == old(out)@ + text@,
{
    let mut tail = chars_of(text);
    out.append(&mut tail);
}

/// The build warning for a deployment target too old for the NAX kernels.
pub open spec fn nax_warning_text(deployment_target: Seq<char>) -> Seq<char> {
    "mlx-rust-sys: MACOSX_DEPLOYMENT_TARGET="@ + deployment_target
        + " is below 26.2 -- MLX will compile with MLX_METAL_NO_NAX and the NAX quantized kernels will be absent from the metallib."@
}

/// The warning to print for `deployment_target`, if it is too old for NAX.
pub fn nax_deployment_warning(deployment_target: &str) -> (warning: Option<String>)
    ensures
        warning is Some <==> !version_at_least(version_of(deployment_target@), (26, 2)),
        warning is Some ==> warning->0@ == nax_warning_text(deployment_target@),
{
    if supports_nax(deployment_target) {
        return None;
    }
    let mut out = chars_of("mlx-rust-sys: MACOSX_DEPLOYMENT_TARGET=");
    push_all(&mut out, deployment_target);
    push_all(
        &mut out,
        " is below 26.2 -- MLX will compile with MLX_METAL_NO_NAX and the NAX quantized kernels will be absent from the metallib.",
    );
    Some(string_of(&out))
}

/// The build warning for an SDK too old for the NAX kernels.
pub open spec fn sdk_warning_text(sdk_version: Seq<char>) -> Seq<char> {
    "mlx-rust-sys: macOS SDK "@ + sdk_version
        + " is below 26.2 -- the NAX quantized kernels will be absent regardless of the deployment target."@
}

/// The warning to print for the SDK whose version `xcrun` reported, if it is
/// known to be too old for NAX; nothing when the version is unknown.
pub fn sdk_nax_warning(sdk_version: Option<&str>) -> (warning: Option<String>)
    ensures
        match sdk_version {
            Some(version) => (warning is Some <==> !version_at_least(version_of(version@), (26, 2)))
                && (warning is Some ==> warning->0@ == sdk_warning_text(version@)),
            None => warning is None,
        },
{
    match sdk_version {
        Some(version) => {
            if supports_nax(version) {
                None
            } else {
                let mut out = chars_of("mlx-rust-sys: macOS SDK ");
                push_all(&mut out, version);
                push_all(
                    &mut out,
                    " is below 26.2 -- the NAX quantized kernels will be absent regardless of the deployment target.",
                );
                Some(string_of(&out))
            }
        },
        None => None,
    }
}

} // verus!
