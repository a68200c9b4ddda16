//! Allocator statistics of the Metal backend.
use vstd::prelude::*;

verus! {

/// MLX allocator statistics, in bytes.
#[derive(Debug, Clone, Copy, PartialEq, Eq, Structural)]
pub struct MemoryStats {
    /// Held by live arrays.
    pub active: usize,
    /// Held in the free-buffer cache.
    pub cached: usize,
    /// High-water mark of `active`.
    pub peak: usize,
    /// The allocator's ceiling.
    pub limit: usize,
}

} // verus!
