//! The rules the native build follows: locating the MLX sources, naming and
//! configuring the CMake tree, and linking what it produced.
use vstd::prelude::*;

pub mod common;
pub mod macos;
pub mod mlx_cmake;
pub mod submodules;

verus! {

/// Where the build reads and writes, and what it targets.
pub struct BuildContext {
    /// The directory of the crate being built.
    pub manifest_dir: String,
    /// Cargo's output directory for this build.
    pub out_dir: String,
    /// The mlx-c submodule (or `MLX_C_SRC_DIR` override).
    pub mlx_c_src_dir: String,
    /// The mlx submodule (or `MLX_SRC_DIR` override), handed to CMake via
    /// `FETCHCONTENT_SOURCE_DIR_MLX` so mlx-c builds against it unmodified.
    pub mlx_src_dir: String,
    /// Stable CMake root, deliberately outside `out_dir`.
    pub cmake_root: String,
    /// Where MLX writes `mlx.metallib`.
    pub metallib_dir: String,
    /// The target triple.
    pub target: String,
    /// The macOS deployment target, `0.0` off Apple.
    pub deployment_target: String,
}

} // verus!
