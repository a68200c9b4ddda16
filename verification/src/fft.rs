//! Normalization of the Fourier transforms.
use vstd::prelude::*;

verus! {

/// How a transform is normalized.
#[derive(Copy, Clone, Debug, PartialEq, Eq, Structural, Hash)]
pub enum FftNorm {
    /// No scaling on the forward transform; `1/n` on the inverse.
    Backward,
    /// `1/sqrt(n)` on both.
    Ortho,
    /// `1/n` on the forward transform; none on the inverse.
    Forward,
}

impl Default for FftNorm {
    fn default() -> (norm: Self)
        ensures
            norm == FftNorm::Backward,
    {
        FftNorm::Backward
    }
}

impl FftNorm {
    /// The `mlx_fft_norm` code of this normalization.
    pub fn raw(self) -> (code: u32)
        ensures
            code == (match self {
                FftNorm::Backward => 0u32,
                FftNorm::Ortho => 1u32,
                FftNorm::Forward => 2u32,
            }),
    {
        match self {
            FftNorm::Backward => 0,
            FftNorm::Ortho => 1,
            FftNorm::Forward => 2,
        }
    }
}

} // verus!
