//! Shared configuration types used across backends.

use vstd::prelude::*;

verus! {

/// The memory-vs-throughput tradeoff for the ONNX Runtime embedder (and a
/// hint for how you might want to size other resources around it).
///
/// This only affects the ORT backend's session configuration today —
/// LiteRT's memory behavior is governed by which accelerator you pick
/// rather than a comparable arena/threading knob.
#[derive(Debug, Clone, Copy, PartialEq, Eq, Structural)]
pub enum MemoryProfile {
    /// Prioritize throughput: memory arena and the memory-pattern optimizer
    /// stay on, and intra-op parallelism scales with available cores. Good
    /// default for a server doing continuous, concurrent recognition.
    Balanced,
    /// Prioritize a small, predictable resident footprint over raw
    /// throughput: arena allocator and memory-pattern optimization both off,
    /// single-threaded.
    LowMemory,
}

impl Default for MemoryProfile {
    fn default() -> (r: MemoryProfile)
        ensures
            r == MemoryProfile::Balanced,
    {
        MemoryProfile::Balanced
    }
}

impl MemoryProfile {
    /// Whether the ONNX Runtime memory arena stays on: only when balanced.
    pub fn use_arena(&self) -> (r: bool)
        ensures
            r == (*self == MemoryProfile::Balanced),
    {
        match self {
            MemoryProfile::Balanced => true,
            MemoryProfile::LowMemory => false,
        }
    }

    /// Whether the memory-pattern optimizer stays on: only when balanced.
    pub fn use_memory_pattern(&self) -> (r: bool)
        ensures
            r == (*self == MemoryProfile::Balanced),
    {
        match self {
            MemoryProfile::Balanced => true,
            MemoryProfile::LowMemory => false,
        }
    }

    /// The intra-op thread count, given the machine's available parallelism
    /// (`None` when it cannot be determined): all available cores (4 when
    /// unknown) when balanced, a single thread in the low-memory profile.
    pub fn intra_threads(&self, available_parallelism: Option<usize>) -> (r: usize)
        ensures
            *self == MemoryProfile::LowMemory ==> r == 1,
            *self == MemoryProfile::Balanced ==> r == match available_parallelism {
                Some(n) => n,
                None => 4,
            },
    {
        match self {
            MemoryProfile::Balanced => match available_parallelism {
                Some(n) => n,
                None => 4,
            },
            MemoryProfile::LowMemory => 1,
        }
    }
}

} // verus!
