//! Helpers shared by the build steps.
use vstd::prelude::*;

use vstd::string::StringSliceAdditionalSpecFns;

use crate::text::{ascii_lowercase, chars_of, same_chars, to_ascii_lowercase, trim, trimmed};

verus! {

/// The FNV-1a 64-bit prime.
pub open spec fn fnv_prime() -> nat {
    0x0000_0100_0000_01b3
}

/// The FNV-1a 64-bit offset basis.
pub open spec fn fnv_offset() -> u64 {
    0xcbf2_9ce4_8422_2325
}

/// One FNV-1a step: xor in `byte`, then multiply by the prime modulo 2^64.
pub open spec fn fnv_step(hash: u64, byte: u8) -> u64 {
    ((((hash ^ (byte as u64)) as nat) * fnv_prime()) % 0x1_0000_0000_0000_0000) as u64
}

/// FNV-1a over `bytes`, starting from `hash`.
pub open spec fn fnv_bytes(hash: u64, bytes: Seq<u8>) -> u64
    decreases bytes.len(),
{
    if bytes.len() == 0 {
        hash
    } else {
        fnv_step(fnv_bytes(hash, bytes.drop_last()), bytes.last())
    }
}

/// FNV-1a over each part's bytes in turn, each followed by the separator byte
/// `0xff`.
pub open spec fn fnv_parts(parts: Seq<Seq<u8>>) -> u64
    decreases parts.len(),
{
    if parts.len() == 0 {
        fnv_offset()
    } else {
        fnv_step(fnv_bytes(fnv_parts(parts.drop_last()), parts.last()), 0xff)
    }
}

/// The UTF-8 bytes of each part.
pub open spec fn part_bytes(parts: Seq<&str>) -> Seq<Seq<u8>> {
    parts.map_values(|part: &str| part.spec_bytes())
}

fn fnv_mix(hash: u64, byte: u8) -> (out: u64)
    ensures
        out == fnv_step(hash, byte),
{
    let mixed = hash ^ (byte as u64);
    mixed.wrapping_mul(0x0000_0100_0000_01b3)
}

/// FNV-1a, for naming a build directory.
///
/// Not `DefaultHasher`, whose output is unspecified across Rust releases and
/// would rename the CMake tree on a toolchain bump. Each part is followed by a
/// `0xff` byte, which no UTF-8 text holds, so `["ab", "c"]` and `["a", "bc"]`
/// hash apart.
pub fn stable_hash(parts: &[&str]) -> (hash: u64)
    ensures
        hash == fnv_parts(part_bytes(parts@)),
{
    let mut hash: u64 = 0xcbf2_9ce4_8422_2325;
    let mut i: usize = 0;
    assert(part_bytes(parts@).take(0) == Seq::<Seq<u8>>::empty());
    while i < parts.len()
        invariant
            i <= parts@.len(),
            hash == fnv_parts(part_bytes(parts@).take(i as int)),
        decreases parts@.len() - i,
    {
        let bytes = parts[i].as_bytes();
        let ghost start = hash;
        let mut j: usize = 0;
        assert(bytes@.take(0) == Seq::<u8>::empty());
        while j < bytes.len()
            invariant
                j <= bytes@.len(),
                hash == fnv_bytes(start, bytes@.take(j as int)),
            decreases bytes@.len() - j,
        {
            assert(bytes@.take(j + 1).drop_last() == bytes@.take(j as int));
            hash = fnv_mix(hash, bytes[j]);
            j = j + 1;
        }
        assert(bytes@.take(bytes@.len() as int) == bytes@);
        hash = fnv_mix(hash, 0xff);
        assert(part_bytes(parts@).take(i + 1).drop_last() == part_bytes(parts@).take(i as int));
        i = i + 1;
    }
    assert(part_bytes(parts@).take(parts@.len() as int) == part_bytes(parts@));
    hash
}

/// Whether an environment value reads as true: after trimming and ignoring
/// ASCII case, one of `1`, `true`, `yes`, `on`.
pub open spec fn truthy(value: Seq<char>) -> bool {
    let v = ascii_lowercase(trimmed(value));
    v == "1"@ || v == "true"@ || v == "yes"@ || v == "on"@
}

/// Whether an environment value reads as true.
pub fn is_truthy(value: &str) -> (b: bool)
    ensures
        b == truthy(value@),
{
    let trimmed_value = trim(&chars_of(value));
    let v = to_ascii_lowercase(&trimmed_value);
    same_chars(&v, &chars_of("1")) || same_chars(&v, &chars_of("true")) || same_chars(
        &v,
        &chars_of("yes"),
    ) || same_chars(&v, &chars_of("on"))
}

/// Whether a directory holding (or not) `CMakeLists.txt` and `mlx/c/ops.h`
/// looks like an mlx-c checkout: it needs both.
pub fn looks_like_mlx_c_repo_root(has_cmake_lists: bool, has_ops_header: bool) -> (b: bool)
    ensures
        b == (has_cmake_lists && has_ops_header),
{
    has_cmake_lists && has_ops_header
}

/// Whether a directory holding (or not) `CMakeLists.txt`, `mlx/version.h` and
/// `mlx/backend` looks like an MLX checkout: it needs all three.
pub fn looks_like_mlx_repo_root(
    has_cmake_lists: bool,
    has_version_header: bool,
    has_backend: bool,
) -> (b: bool)
    ensures
        b == (has_cmake_lists && has_version_header && has_backend),
{
    has_cmake_lists && has_version_header && has_backend
}

} // verus!
