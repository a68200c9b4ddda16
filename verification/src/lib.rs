//! Verified core of safe Rust bindings to MLX: the rules that decide, before a
//! call reaches MLX, whether its arguments are acceptable and what it returns
//! when it fails; the parameter trees of modules; and the native build's
//! naming, configuration and linking rules.
use vstd::prelude::*;

pub mod array;
pub mod build;
pub mod dtype;
pub mod error;
pub mod expand;
pub mod fft;
pub mod metal;
pub mod module;
pub mod naming;
pub mod ops;
pub mod text;

pub use dtype::Dtype;
pub use error::Error;
pub use ops::{QuantConfig, QuantMode};

verus! {

/// `Result` with this crate's [`Error`].
pub type Result<T> = core::result::Result<T, Error>;

} // verus!
