//! The native build's rules.

use mlx::build::common::{is_truthy, looks_like_mlx_c_repo_root, looks_like_mlx_repo_root, stable_hash};
use mlx::build::macos::{
    deployment_target, nax_deployment_warning, parse_version, sdk_nax_warning, sdk_supports_nax,
    supports_nax,
};
use mlx::build::mlx_cmake::{
    cmake_bool, cmake_cache_checks, cmake_defines, cmake_profile, link_name, link_order,
    osx_architecture, sort_names, static_libs, CacheKey,
};
use mlx::build::submodules::{
    cmake_root_choice, CmakeRoot, cmake_tree_name, context_deployment_target, features_name, is_apple_target,
    missing_submodule_message, resolve_source_tree, SourceTree,
};
use mlx::build::BuildContext;

fn strings(names: &[&str]) -> Vec<String> {
    names.iter().map(|name| name.to_string()).collect()
}

#[test]
fn stable_hash_is_fnv1a_with_separators() {
    assert_eq!(stable_hash(&[]), 0xcbf2_9ce4_8422_2325);
    assert_eq!(stable_hash(&[""]), 0xaf64_724c_8602_eb6e);
    assert_eq!(stable_hash(&["ab", "c"]), 0x20ba_9b30_25a8_b421);
    assert_eq!(stable_hash(&["a", "bc"]), 0xa0a3_542c_19b9_00ab);
    assert_ne!(stable_hash(&["ab", "c"]), stable_hash(&["a", "bc"]));
    assert_eq!(stable_hash(&["ab", "c"]), stable_hash(&["ab", "c"]));
}

#[test]
fn versions_parse_leniently() {
    assert_eq!(parse_version("26.2"), (26, 2));
    assert_eq!(parse_version("  15.4.1 \n"), (15, 4));
    assert_eq!(parse_version("27"), (27, 0));
    assert_eq!(parse_version("+26.x"), (26, 0));
    assert_eq!(parse_version(""), (0, 0));
    assert_eq!(parse_version("abc"), (0, 0));
    assert_eq!(parse_version("99999999999.3"), (0, 3));
    assert_eq!(parse_version("-1.5"), (0, 5));
}

#[test]
fn nax_needs_26_2() {
    assert!(supports_nax("26.2"));
    assert!(supports_nax("26.4"));
    assert!(supports_nax("27.0"));
    assert!(!supports_nax("26.1"));
    assert!(!supports_nax("15.9"));
    assert!(!supports_nax("0.0"));
    assert_eq!(sdk_supports_nax(Some("26.2\n")), Some(true));
    assert_eq!(sdk_supports_nax(Some("15.0")), Some(false));
    assert_eq!(sdk_supports_nax(None), None);
}

#[test]
fn deployment_target_defaults_when_unset_or_blank() {
    assert_eq!(deployment_target(None), "26.4");
    assert_eq!(deployment_target(Some("   ")), "26.4");
    assert_eq!(deployment_target(Some("14.0")), "14.0");
    assert_eq!(context_deployment_target("aarch64-apple-darwin", Some("15.1")), "15.1");
    assert_eq!(context_deployment_target("aarch64-apple-darwin", None), "26.4");
    assert_eq!(context_deployment_target("x86_64-unknown-linux-gnu", Some("15.1")), "0.0");
}

#[test]
fn truthy_values() {
    for value in ["1", "true", "TRUE", " Yes ", "on", "On\n"] {
        assert!(is_truthy(value), "{value:?}");
    }
    for value in ["", "0", "false", "no", "off", "y", "truee", "o n"] {
        assert!(!is_truthy(value), "{value:?}");
    }
}

#[test]
fn repo_roots_need_every_marker() {
    assert!(looks_like_mlx_c_repo_root(true, true));
    assert!(!looks_like_mlx_c_repo_root(true, false));
    assert!(looks_like_mlx_repo_root(true, true, true));
    assert!(!looks_like_mlx_repo_root(true, false, true));
}

#[test]
fn apple_targets() {
    assert!(is_apple_target("aarch64-apple-darwin"));
    assert!(is_apple_target("aarch64-apple-ios-sim"));
    assert!(!is_apple_target("x86_64-unknown-linux-gnu"));
    assert!(!is_apple_target("apple"));
    assert_eq!(osx_architecture("aarch64-apple-darwin"), Some("arm64"));
    assert_eq!(osx_architecture("x86_64-apple-darwin"), Some("x86_64"));
    assert_eq!(osx_architecture("aarch64-apple-ios"), None);
}

#[test]
fn missing_sources_get_advice_for_their_case() {
    let registry = missing_submodule_message("MLX_SRC_DIR", "mlx", "/r/mlx", "/r", false, false);
    assert_eq!(
        registry,
        "Cannot find the mlx sources, and /r is not an mlx-rust checkout.\n\
         Set MLX_SRC_DIR to a mlx checkout, or depend on the repository, which does fetch the submodules:\n\n    \
         mlx-rust = { git = \"https://github.com/computer-graphics-tools/mlx-rust\" }\n"
    );
    let clone = missing_submodule_message("MLX_SRC_DIR", "mlx", "/r/mlx", "/r", true, true);
    assert_eq!(
        clone,
        "The mlx submodule is not initialized at /r/mlx.\n\
         Run `git submodule update --init --recursive`, or set MLX_SRC_DIR to a checked-out mlx repo root."
    );
    let archive = missing_submodule_message("MLX_C_SRC_DIR", "mlx-c", "/r/mlx-c", "/r", true, false);
    assert_eq!(
        archive,
        "/r is an extracted archive, not a clone, so mlx-c is empty at /r/mlx-c.\n\
         GitHub archives omit submodules -- clone instead:\n\n    \
         git clone --recurse-submodules https://github.com/computer-graphics-tools/mlx-rust\n"
    );
}

#[test]
fn source_tree_choice() {
    assert_eq!(
        resolve_source_tree("MLX_SRC_DIR", "mlx", Some("/o"), true, "/r/mlx", false, "/r", true, true),
        Ok(SourceTree::Override)
    );
    assert_eq!(
        resolve_source_tree("MLX_SRC_DIR", "mlx", Some("/o"), false, "/r/mlx", true, "/r", true, true),
        Err("MLX_SRC_DIR=/o does not look like a mlx repo root".to_string())
    );
    assert_eq!(
        resolve_source_tree("MLX_SRC_DIR", "mlx", None, false, "/r/mlx", true, "/r", true, true),
        Ok(SourceTree::Submodule)
    );
    let missing =
        resolve_source_tree("MLX_SRC_DIR", "mlx", None, true, "/r/mlx", false, "/r", true, true);
    assert_eq!(
        missing,
        Err(missing_submodule_message("MLX_SRC_DIR", "mlx", "/r/mlx", "/r", true, true))
    );
}

#[test]
fn cmake_tree_is_named_by_its_key() {
    assert_eq!(features_name(true, true), "metal-jit");
    assert_eq!(features_name(true, false), "metal");
    assert_eq!(features_name(false, true), "nometal");
    assert_eq!(
        cmake_tree_name("aarch64-apple-darwin", "release", "metal", "26.4", "/src/mlx", "/src/mlx-c"),
        "aarch64-apple-darwin-release-metal-26.4-2cd5fae1"
    );
    assert_eq!(cmake_tree_name("t", "p", "f", "0.0", "", "").len(), "t-p-f-0.0-".len() + 8);
}

#[test]
fn cmake_words_and_profiles() {
    assert_eq!(cmake_bool(true), "ON");
    assert_eq!(cmake_bool(false), "OFF");
    assert_eq!(cmake_profile(None, false), "Release");
    assert_eq!(cmake_profile(Some("release"), true), "Release");
    assert_eq!(cmake_profile(Some("debug"), false), "Release");
    assert_eq!(cmake_profile(Some("debug"), true), "Debug");
}

#[test]
fn static_libraries_are_named_and_deduplicated() {
    assert_eq!(link_name("libmlx"), "mlx");
    assert_eq!(link_name("jaccl"), "jaccl");
    assert_eq!(link_name("lib"), "");
    let found = vec![
        ("libmlxc".to_string(), "/b".to_string()),
        ("libmlx".to_string(), "/b/_deps/mlx-build".to_string()),
        ("mlx".to_string(), "/elsewhere".to_string()),
        ("libfmt".to_string(), "/b/fmt".to_string()),
    ];
    let libs = static_libs(&found);
    assert_eq!(
        libs,
        vec![
            ("mlxc".to_string(), "/b".to_string()),
            ("mlx".to_string(), "/b/_deps/mlx-build".to_string()),
            ("fmt".to_string(), "/b/fmt".to_string()),
        ]
    );
}

#[test]
fn link_order_puts_dependents_first_then_sorts() {
    let names = strings(&["zlib", "mlx", "gguf", "jaccl", "fmt", "mlxc"]);
    assert_eq!(link_order(&names), strings(&["mlxc", "mlx", "jaccl", "fmt", "gguf", "zlib"]));
    let names = strings(&["b", "a", "mlx"]);
    assert_eq!(link_order(&names), strings(&["mlx", "a", "b"]));
    assert_eq!(link_order(&Vec::new()), Vec::<String>::new());
    assert_eq!(sort_names(strings(&["b", "ab", "a", "B"])), strings(&["B", "a", "ab", "b"]));
}

#[test]
fn cache_entries_to_check_come_in_line_order() {
    let contents = "# comment\r\nCMAKE_CACHEFILE_DIR:INTERNAL=/b\r\nOTHER:STRING=x\nCMAKE_HOME_DIRECTORY:INTERNAL=/s=1\nnoequals\n";
    let checks = cmake_cache_checks(contents);
    assert_eq!(checks.len(), 2);
    assert_eq!(checks[0].key, CacheKey::CacheFileDirectory);
    assert_eq!(checks[0].value, "/b");
    assert_eq!(checks[1].key, CacheKey::HomeDirectory);
    assert_eq!(checks[1].value, "/s=1");
    assert!(cmake_cache_checks("").is_empty());
    let unterminated = cmake_cache_checks("CMAKE_HOME_DIRECTORY:X=/s\r");
    assert_eq!(unterminated[0].value, "/s\r");
}

#[test]
fn cmake_definitions_follow_the_target() {
    let linux = cmake_defines("/m", "/lib", true, false, false, "x86_64-unknown-linux-gnu", "0.0");
    assert_eq!(linux.len(), 18);
    assert_eq!(linux[0], ("FETCHCONTENT_SOURCE_DIR_MLX".to_string(), "/m".to_string()));
    assert!(linux.contains(&("MLX_BUILD_METAL".to_string(), "ON".to_string())));
    assert!(linux.contains(&("MLX_METAL_JIT".to_string(), "OFF".to_string())));
    assert!(linux.contains(&("MLX_METAL_PATH".to_string(), "/lib".to_string())));
    let mac = cmake_defines("/m", "/lib", true, true, true, "aarch64-apple-darwin", "26.4");
    assert_eq!(mac.len(), 20);
    assert_eq!(mac[18], ("CMAKE_OSX_ARCHITECTURES".to_string(), "arm64".to_string()));
    assert_eq!(mac[19], ("CMAKE_OSX_DEPLOYMENT_TARGET".to_string(), "26.4".to_string()));
    assert!(mac.contains(&("MLX_USE_CCACHE".to_string(), "ON".to_string())));
}

#[test]
fn build_context_holds_its_paths() {
    let context = BuildContext {
        manifest_dir: "/r/crates/mlx-rust-sys".to_string(),
        out_dir: "/t/release/build/x/out".to_string(),
        mlx_c_src_dir: "/r/mlx-c".to_string(),
        mlx_src_dir: "/r/mlx".to_string(),
        cmake_root: "/t/mlx-rust-build/k".to_string(),
        metallib_dir: "/t/mlx-rust-build/k/metallib".to_string(),
        target: "aarch64-apple-darwin".to_string(),
        deployment_target: "26.4".to_string(),
    };
    assert!(is_apple_target(&context.target));
    assert_eq!(context.deployment_target, "26.4");
}

#[test]
fn nax_warnings_name_what_is_too_old() {
    assert_eq!(nax_deployment_warning("26.4"), None);
    assert_eq!(
        nax_deployment_warning("15.0").unwrap(),
        "mlx-rust-sys: MACOSX_DEPLOYMENT_TARGET=15.0 is below 26.2 -- MLX will compile with MLX_METAL_NO_NAX and the NAX quantized kernels will be absent from the metallib."
    );
    assert_eq!(sdk_nax_warning(None), None);
    assert_eq!(sdk_nax_warning(Some("26.2")), None);
    assert_eq!(
        sdk_nax_warning(Some("15.5")).unwrap(),
        "mlx-rust-sys: macOS SDK 15.5 is below 26.2 -- the NAX quantized kernels will be absent regardless of the deployment target."
    );
}

#[test]
fn an_explicit_cmake_build_dir_wins_over_out_dir() {
    assert_eq!(cmake_root_choice(true, Some("1")), CmakeRoot::Override);
    assert_eq!(cmake_root_choice(true, None), CmakeRoot::Override);
    assert_eq!(cmake_root_choice(false, Some(" Yes ")), CmakeRoot::OutDir);
    assert_eq!(cmake_root_choice(false, Some("on")), CmakeRoot::OutDir);
    assert_eq!(cmake_root_choice(false, Some("0")), CmakeRoot::Shared);
    assert_eq!(cmake_root_choice(false, Some("")), CmakeRoot::Shared);
    assert_eq!(cmake_root_choice(false, None), CmakeRoot::Shared);
}
