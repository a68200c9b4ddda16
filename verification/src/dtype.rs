//! Element types and their `mlx_dtype` codes.
use vstd::prelude::*;

use crate::error::Error;

verus! {

/// Element type of an MLX array. Each variant carries the `mlx_dtype` code
/// that [`Dtype::raw`] returns.
#[derive(Copy, Clone, Debug, PartialEq, Eq, Structural, Hash)]
#[allow(missing_docs)]
pub enum Dtype {
    Bool,
    Uint8,
    Uint16,
    Uint32,
    Uint64,
    Int8,
    Int16,
    Int32,
    Int64,
    Float16,
    Float32,
    Float64,
    Bfloat16,
    Complex64,
}

impl Dtype {
    /// The `mlx_dtype` discriminant of this dtype.
    pub open spec fn code(self) -> u32 {
        match self {
            Dtype::Bool => 0,
            Dtype::Uint8 => 1,
            Dtype::Uint16 => 2,
            Dtype::Uint32 => 3,
            Dtype::Uint64 => 4,
            Dtype::Int8 => 5,
            Dtype::Int16 => 6,
            Dtype::Int32 => 7,
            Dtype::Int64 => 8,
            Dtype::Float16 => 9,
            Dtype::Float32 => 10,
            Dtype::Float64 => 11,
            Dtype::Bfloat16 => 12,
            Dtype::Complex64 => 13,
        }
    }

    /// The `mlx_dtype` discriminant of this dtype.
    pub fn raw(self) -> (code: u32)
        ensures
            code == self.code(),
    {
        match self {
            Dtype::Bool => 0,
            Dtype::Uint8 => 1,
            Dtype::Uint16 => 2,
            Dtype::Uint32 => 3,
            Dtype::Uint64 => 4,
            Dtype::Int8 => 5,
            Dtype::Int16 => 6,
            Dtype::Int32 => 7,
            Dtype::Int64 => 8,
            Dtype::Float16 => 9,
            Dtype::Float32 => 10,
            Dtype::Float64 => 11,
            Dtype::Bfloat16 => 12,
            Dtype::Complex64 => 13,
        }
    }

    /// The variant's name, as `{:?}` prints it.
    pub open spec fn debug_name(self) -> Seq<char> {
        match self {
            Dtype::Bool => "Bool"@,
            Dtype::Uint8 => "Uint8"@,
            Dtype::Uint16 => "Uint16"@,
            Dtype::Uint32 => "Uint32"@,
            Dtype::Uint64 => "Uint64"@,
            Dtype::Int8 => "Int8"@,
            Dtype::Int16 => "Int16"@,
            Dtype::Int32 => "Int32"@,
            Dtype::Int64 => "Int64"@,
            Dtype::Float16 => "Float16"@,
            Dtype::Float32 => "Float32"@,
            Dtype::Float64 => "Float64"@,
            Dtype::Bfloat16 => "Bfloat16"@,
            Dtype::Complex64 => "Complex64"@,
        }
    }

    /// The variant's name, as `{:?}` prints it.
    pub fn name(self) -> (name: &'static str)
        ensures
            name@ == self.debug_name(),
    {
        match self {
            Dtype::Bool => "Bool",
            Dtype::Uint8 => "Uint8",
            Dtype::Uint16 => "Uint16",
            Dtype::Uint32 => "Uint32",
            Dtype::Uint64 => "Uint64",
            Dtype::Int8 => "Int8",
            Dtype::Int16 => "Int16",
            Dtype::Int32 => "Int32",
            Dtype::Int64 => "Int64",
            Dtype::Float16 => "Float16",
            Dtype::Float32 => "Float32",
            Dtype::Float64 => "Float64",
            Dtype::Bfloat16 => "Bfloat16",
            Dtype::Complex64 => "Complex64",
        }
    }

    /// Convert an `mlx_dtype` discriminant.
    ///
    /// # Errors
    ///
    /// `UnsupportedDtype(raw)` if `raw` is not a dtype this crate maps.
    pub fn from_raw(raw: u32) -> (out: Result<Dtype, Error>)
        ensures
            match dtype_of_code(raw) {
                Some(d) => out == Ok::<Dtype, Error>(d),
                None => out == Err::<Dtype, Error>(Error::UnsupportedDtype(raw)),
            },
    {
        match raw {
            0 => Ok(Dtype::Bool),
            1 => Ok(Dtype::Uint8),
            2 => Ok(Dtype::Uint16),
            3 => Ok(Dtype::Uint32),
            4 => Ok(Dtype::Uint64),
            5 => Ok(Dtype::Int8),
            6 => Ok(Dtype::Int16),
            7 => Ok(Dtype::Int32),
            8 => Ok(Dtype::Int64),
            9 => Ok(Dtype::Float16),
            10 => Ok(Dtype::Float32),
            11 => Ok(Dtype::Float64),
            12 => Ok(Dtype::Bfloat16),
            13 => Ok(Dtype::Complex64),
            other => Err(Error::UnsupportedDtype(other)),
        }
    }
}

/// The `mlx_optional_dtype` for an optional dtype: its code (that of
/// `Float32` when absent, which MLX then ignores) and whether it is present.
pub fn optional_dtype(dtype: Option<Dtype>) -> (raw: (u32, bool))
    ensures
        raw == (match dtype {
            Some(d) => (d.code(), true),
            None => (10u32, false),
        }),
{
    match dtype {
        Some(d) => (d.raw(), true),
        None => (Dtype::Float32.raw(), false),
    }
}

/// The dtype whose `mlx_dtype` code is `raw`, if this crate maps one.
pub open spec fn dtype_of_code(raw: u32) -> Option<Dtype> {
    match raw {
        0 => Some(Dtype::Bool),
        1 => Some(Dtype::Uint8),
        2 => Some(Dtype::Uint16),
        3 => Some(Dtype::Uint32),
        4 => Some(Dtype::Uint64),
        5 => Some(Dtype::Int8),
        6 => Some(Dtype::Int16),
        7 => Some(Dtype::Int32),
        8 => Some(Dtype::Int64),
        9 => Some(Dtype::Float16),
        10 => Some(Dtype::Float32),
        11 => Some(Dtype::Float64),
        12 => Some(Dtype::Bfloat16),
        13 => Some(Dtype::Complex64),
        _ => None,
    }
}

/// Codes and dtypes correspond one to one: reading back a dtype's own code gives
/// that dtype, and a code that reads as a dtype is that dtype's code. So
/// `Dtype::from_raw(d.raw())` is `Ok(d)`.
pub proof fn lemma_dtype_code_round_trip(d: Dtype, raw: u32)
    ensures
        dtype_of_code(d.code()) == Some(d),
        dtype_of_code(raw) == Some(d) ==> d.code() == raw,
        dtype_of_code(raw) is None <==> raw >= 14,
{
}

} // verus!
