//! Locating the MLX and mlx-c sources, and naming the CMake tree built from
//! them.
use vstd::prelude::*;

use super::common::{fnv_parts, is_truthy, part_bytes, stable_hash, truthy};
use super::macos::deployment_target;
use crate::text::{chars_of, contains, has_infix, hex8, hex_padded, string_of, trimmed};

verus! {

/// Whether the Apple-specific CMake knobs apply to `target`.
pub open spec fn apple_target(target: Seq<char>) -> bool {
    has_infix(target, "apple-darwin"@) || has_infix(target, "apple-ios"@)
}

/// `s` contains `part` when `part` stands between `before` and `after`.
proof fn lemma_infix_of_concat(before: Seq<char>, part: Seq<char>, after: Seq<char>)
    ensures
        has_infix(before + part + after, part),
{
    let s = before + part + after;
    let i = before.len() as int;
    assert(s.subrange(i, i + part.len()) =~= part);
}

/// Every triple of the form `{arch}-apple-darwin{rest}` or
/// `{arch}-apple-ios{rest}` is an Apple target, whatever its architecture and
/// whatever follows.
pub proof fn lemma_apple_triples_are_apple_targets(arch: Seq<char>, rest: Seq<char>)
    ensures
        apple_target(arch + "-"@ + "apple-darwin"@ + rest),
        apple_target(arch + "-"@ + "apple-ios"@ + rest),
{
    lemma_infix_of_concat(arch + "-"@, "apple-darwin"@, rest);
    lemma_infix_of_concat(arch + "-"@, "apple-ios"@, rest);
}


/// Whether the Apple-specific CMake knobs apply to this target.
pub fn is_apple_target(target: &str) -> (b: bool)
    ensures
        b == apple_target(target@),
        has_infix(target@, "apple-darwin"@) ==> b,
        has_infix(target@, "apple-ios"@) ==> b,
        b ==> has_infix(target@, "apple-darwin"@) || has_infix(target@, "apple-ios"@),
{
    let chars = chars_of(target);
    contains(&chars, &chars_of("apple-darwin")) || contains(&chars, &chars_of("apple-ios"))
}

fn push_all(out: &mut Vec<char>, text: &str)
    ensures
        final(out)@ == old(out)@ + text@,
{
    let mut tail = chars_of(text);
    out.append(&mut tail);
}

/// Advice when `what` is missing and `repo_root` holds no `.gitmodules`: not a
/// checkout of this repository, so a registry or vendored build.
pub open spec fn not_a_checkout_message(env_var: Seq<char>, what: Seq<char>, repo_root: Seq<char>) -> Seq<char> {
    "Cannot find the "@ + what + " sources, and "@ + repo_root
        + " is not an mlx-rust checkout.\nSet "@ + env_var + " to a "@ + what
        + " checkout, or depend on the repository, which does fetch the submodules:\n\n    mlx-rust = { git = \"https://github.com/computer-graphics-tools/mlx-rust\" }\n"@
}

/// Advice when `what` is missing from a clone whose submodules were not
/// initialized.
pub open spec fn uninitialized_message(env_var: Seq<char>, what: Seq<char>, submodule: Seq<char>) -> Seq<char> {
    "The "@ + what + " submodule is not initialized at "@ + submodule
        + ".\nRun `git submodule update --init --recursive`, or set "@ + env_var
        + " to a checked-out "@ + what + " repo root."@
}

/// Advice when `what` is missing from an extracted source archive, which omits
/// submodules.
pub open spec fn archive_message(what: Seq<char>, submodule: Seq<char>, repo_root: Seq<char>) -> Seq<char> {
    repo_root + " is an extracted archive, not a clone, so "@ + what + " is empty at "@ + submodule
        + ".\nGitHub archives omit submodules -- clone instead:\n\n    git clone --recurse-submodules https://github.com/computer-graphics-tools/mlx-rust\n"@
}

/// Why `what` is missing, and what to do about it, told apart by whether
/// `repo_root` holds `.gitmodules` and `.git`.
pub open spec fn missing_message(
    env_var: Seq<char>,
    what: Seq<char>,
    submodule: Seq<char>,
    repo_root: Seq<char>,
    has_gitmodules: bool,
    has_git: bool,
) -> Seq<char> {
    if !has_gitmodules {
        not_a_checkout_message(env_var, what, repo_root)
    } else if has_git {
        uninitialized_message(env_var, what, submodule)
    } else {
        archive_message(what, submodule, repo_root)
    }
}

/// Why `what` is missing, and what to do about it. Each case needs different
/// advice: no `.gitmodules` means this is not a checkout of the repository;
/// `.git` means a clone whose submodules were not initialized; `.gitmodules`
/// without `.git` means an extracted archive.
pub fn missing_submodule_message(
    env_var: &str,
    what: &str,
    submodule: &str,
    repo_root: &str,
    has_gitmodules: bool,
    has_git: bool,
) -> (message: String)
    ensures
        message@ == missing_message(
            env_var@,
            what@,
            submodule@,
            repo_root@,
            has_gitmodules,
            has_git,
        ),
{
    let mut out: Vec<char> = Vec::new();
    if !has_gitmodules {
        push_all(&mut out, "Cannot find the ");
        push_all(&mut out, what);
        push_all(&mut out, " sources, and ");
        push_all(&mut out, repo_root);
        push_all(&mut out, " is not an mlx-rust checkout.\nSet ");
        push_all(&mut out, env_var);
        push_all(&mut out, " to a ");
        push_all(&mut out, what);
        push_all(
            &mut out,
            " checkout, or depend on the repository, which does fetch the submodules:\n\n    mlx-rust = { git = \"https://github.com/computer-graphics-tools/mlx-rust\" }\n",
        );
    } else if has_git {
        push_all(&mut out, "The ");
        push_all(&mut out, what);
        push_all(&mut out, " submodule is not initialized at ");
        push_all(&mut out, submodule);
        push_all(&mut out, ".\nRun `git submodule update --init --recursive`, or set ");
        push_all(&mut out, env_var);
        push_all(&mut out, " to a checked-out ");
        push_all(&mut out, what);
        push_all(&mut out, " repo root.");
    } else {
        push_all(&mut out, repo_root);
        push_all(&mut out, " is an extracted archive, not a clone, so ");
        push_all(&mut out, what);
        push_all(&mut out, " is empty at ");
        push_all(&mut out, submodule);
        push_all(
            &mut out,
            ".\nGitHub archives omit submodules -- clone instead:\n\n    git clone --recurse-submodules https://github.com/computer-graphics-tools/mlx-rust\n",
        );
    }
    string_of(&out)
}

/// Where the CMake tree is built.
#[derive(Copy, Clone, Debug, PartialEq, Eq, Structural)]
pub enum CmakeRoot {
    /// The directory `MLX_RUST_CMAKE_BUILD_DIR` names.
    Override,
    /// `mlx-cmake` under `OUT_DIR`, which cargo discards on any feature or
    /// profile change.
    OutDir,
    /// A tree shared across builds under the target directory, named by the
    /// target, profile, features, deployment target and sources.
    Shared,
}

/// Which CMake root the build uses: an explicit build directory wins; else a
/// truthy `MLX_RUST_BUILD_IN_OUT_DIR` keeps the build inside `OUT_DIR`; else
/// the shared tree.
pub open spec fn cmake_root_of(override_set: bool, build_in_out_dir: Option<Seq<char>>) -> CmakeRoot {
    if override_set {
        CmakeRoot::Override
    } else if build_in_out_dir matches Some(value) && truthy(value) {
        CmakeRoot::OutDir
    } else {
        CmakeRoot::Shared
    }
}

/// Choose the CMake root from whether `MLX_RUST_CMAKE_BUILD_DIR` is set and
/// the value of `MLX_RUST_BUILD_IN_OUT_DIR`, if any.
pub fn cmake_root_choice(override_set: bool, build_in_out_dir: Option<&str>) -> (root: CmakeRoot)
    ensures
        root == cmake_root_of(
            override_set,
            match build_in_out_dir {
                Some(value) => Some(value@),
                None => None,
            },
        ),
{
    if override_set {
        return CmakeRoot::Override;
    }
    match build_in_out_dir {
        Some(value) => {
            if is_truthy(value) {
                CmakeRoot::OutDir
            } else {
                CmakeRoot::Shared
            }
        },
        None => CmakeRoot::Shared,
    }
}

/// Which source tree the build uses.
#[derive(Copy, Clone, Debug, PartialEq, Eq, Structural)]
pub enum SourceTree {
    /// The directory the override variable names.
    Override,
    /// The submodule checked out with this repository.
    Submodule,
}

/// The refusal of an override that does not look like the sources it names.
pub open spec fn bad_override_message(env_var: Seq<char>, path: Seq<char>, what: Seq<char>) -> Seq<char> {
    env_var + "="@ + path + " does not look like a "@ + what + " repo root"@
}

/// Choose between the override `env_var` names (already made absolute, and
/// whether it looks like the sources) and the submodule.
///
/// # Errors
///
/// The message to stop the build with: an override that does not look like
/// the sources, or, with no override, a submodule that does not either (see
/// [`missing_submodule_message`]).
pub fn resolve_source_tree(
    env_var: &str,
    what: &str,
    override_path: Option<&str>,
    override_looks_valid: bool,
    submodule: &str,
    submodule_looks_valid: bool,
    repo_root: &str,
    has_gitmodules: bool,
    has_git: bool,
) -> (out: Result<SourceTree, String>)
    ensures
        match override_path {
            Some(path) => if override_looks_valid {
                out == Ok::<SourceTree, String>(SourceTree::Override)
            } else {
                out is Err && out->Err_0@ == bad_override_message(env_var@, path@, what@)
            },
            None => if submodule_looks_valid {
                out == Ok::<SourceTree, String>(SourceTree::Submodule)
            } else {
                out is Err && out->Err_0@ == missing_message(
                    env_var@,
                    what@,
                    submodule@,
                    repo_root@,
                    has_gitmodules,
                    has_git,
                )
            },
        },
{
    if let Some(path) = override_path {
        if !override_looks_valid {
            let mut out = chars_of(env_var);
            push_all(&mut out, "=");
            push_all(&mut out, path);
            push_all(&mut out, " does not look like a ");
            push_all(&mut out, what);
            push_all(&mut out, " repo root");
            return Err(string_of(&out));
        }
        return Ok(SourceTree::Override);
    }
    if !submodule_looks_valid {
        return Err(
            missing_submodule_message(env_var, what, submodule, repo_root, has_gitmodules, has_git),
        );
    }
    Ok(SourceTree::Submodule)
}

/// The feature set's part of the CMake tree's name: `metal-jit` changes which
/// kernels land in the metallib, so it must not share a tree with `metal`.
pub open spec fn features_label(metal: bool, metal_jit: bool) -> Seq<char> {
    if metal && metal_jit {
        "metal-jit"@
    } else if metal {
        "metal"@
    } else {
        "nometal"@
    }
}

/// Without Metal the label is `nometal`, whatever `metal_jit` says; with it,
/// `metal-jit` or `metal` as the JIT is on or off.
pub proof fn lemma_features_label_names_the_feature_set(metal: bool, metal_jit: bool)
    ensures
        !metal ==> features_label(metal, metal_jit) == "nometal"@,
        metal && metal_jit ==> features_label(metal, metal_jit) == "metal-jit"@,
        metal && !metal_jit ==> features_label(metal, metal_jit) == "metal"@,
{
}

/// Builds that differ in whether Metal is built, or with Metal in whether the
/// JIT is, never share a tree label.
pub proof fn lemma_features_label_tells_builds_apart(m1: bool, j1: bool, m2: bool, j2: bool)
    requires
        features_label(m1, j1) == features_label(m2, j2),
    ensures
        m1 == m2,
        m1 ==> j1 == j2,
{
    reveal_strlit("metal-jit");
    reveal_strlit("metal");
    reveal_strlit("nometal");
    assert("metal-jit"@.len() == 9 && "metal"@.len() == 5 && "nometal"@.len() == 7);
}


/// The feature set's part of the CMake tree's name.
pub fn features_name(metal: bool, metal_jit: bool) -> (name: &'static str)
    ensures
        name@ == features_label(metal, metal_jit),
        !metal ==> name@ == "nometal"@,
        metal && metal_jit ==> name@ == "metal-jit"@,
        metal && !metal_jit ==> name@ == "metal"@,
{
    proof {
        lemma_features_label_names_the_feature_set(metal, metal_jit);
    }
    if metal && metal_jit {
        "metal-jit"
    } else if metal {
        "metal"
    } else {
        "nometal"
    }
}

/// The name of the CMake tree for a build:
/// `{target}-{profile}-{features}-{deployment_target}-{hash:08x}`, where `hash`
/// is the low 32 bits of [`stable_hash`] over the two source directories.
pub open spec fn tree_name(
    target: Seq<char>,
    profile: Seq<char>,
    features: Seq<char>,
    deployment_target: Seq<char>,
    source_hash: u64,
) -> Seq<char> {
    target + "-"@ + profile + "-"@ + features + "-"@ + deployment_target + "-"@ + hex_padded(
        (source_hash as nat) % 0x1_0000_0000,
        8,
    )
}

/// The name of the CMake tree for a build, keyed by target, profile, feature
/// set, deployment target and where the sources live.
pub fn cmake_tree_name(
    target: &str,
    profile: &str,
    features: &str,
    deployment_target: &str,
    mlx_src_dir: &str,
    mlx_c_src_dir: &str,
) -> (name: String)
    ensures
        name@ == tree_name(
            target@,
            profile@,
            features@,
            deployment_target@,
            fnv_parts(part_bytes(seq![mlx_src_dir, mlx_c_src_dir])),
        ),
{
    let parts: [&str; 2] = [mlx_src_dir, mlx_c_src_dir];
    let hash = stable_hash(&parts);
    assert(parts@ == seq![mlx_src_dir, mlx_c_src_dir]);
    let low: u32 = (hash % 0x1_0000_0000) as u32;
    let mut out = chars_of(target);
    push_all(&mut out, "-");
    push_all(&mut out, profile);
    push_all(&mut out, "-");
    push_all(&mut out, features);
    push_all(&mut out, "-");
    push_all(&mut out, deployment_target);
    push_all(&mut out, "-");
    let mut digits = hex8(low);
    out.append(&mut digits);
    string_of(&out)
}

/// The deployment target a build context records: the macOS one (see
/// [`deployment_target`]) for an Apple target, `0.0` otherwise. Keyed off the
/// target, not the host, so cross-compiling answers for the right machine.
pub fn context_deployment_target(target: &str, env_value: Option<&str>) -> (out: String)
    ensures
        apple_target(target@) ==> out@ == match env_value {
            Some(value) => if trimmed(value@).len() > 0 { value@ } else { "26.4"@ },
            None => "26.4"@,
        },
        !apple_target(target@) ==> out@ == "0.0"@,
        has_infix(target@, "apple-darwin"@) || has_infix(target@, "apple-ios"@) ==> out@ == match env_value {
            Some(value) => if trimmed(value@).len() > 0 { value@ } else { "26.4"@ },
            None => "26.4"@,
        },
{
    if is_apple_target(target) {
        deployment_target(env_value)
    } else {
        string_of(&chars_of("0.0"))
    }
}

} // verus!
