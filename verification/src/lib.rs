//! Deterministic procedural world generation.
//!
//! The library produces an infinite, reproducible 2D world from a 64-bit
//! seed: continuous climate/height fields (gradient noise composed over
//! several octaves), a total classification of those fields into biomes,
//! a chunked spatial cache, and a procedural city generator that places
//! non-overlapping buildings and connects them with roads found by an
//! informed graph search.
//!
//! Field values are fixed-point integers: `FIELD_ONE` stands for 1.0, so a
//! value of `-8000` means -0.8. This keeps every result bit-identical
//! across runs and machines, which the caching layer relies on.
use vstd::prelude::*;

pub mod biome;
pub mod chunk;
pub mod city_generation;
pub mod concrete_cell;
pub mod intermediate_cell;
pub mod map;
pub mod occupancy;
pub mod perlin_noise;
mod rng;
pub mod world;

verus! {

/// The fixed-point unit: field values, scales, lacunarity and persistence
/// are all integers counted in ten-thousandths.
pub const FIELD_ONE: i64 = 10000;

/// Everything that can be rejected at construction time, and the one
/// recoverable generation failure.
#[derive(Clone, Copy, Debug, PartialEq, Eq, Structural)]
pub enum WorldGenError {
    /// A global or per-field scale outside the accepted range.
    InvalidScale,
    /// A chunk size outside the accepted range.
    InvalidChunkSize,
    /// Noise parameters (lacunarity, persistence, octaves) out of range.
    InvalidNoiseParams,
    /// City configuration (size, distance or scale ranges) out of range.
    InvalidCityParams,
    /// City generation could not place a building within the retry budget.
    PlacementExhausted,
}

} // verus!
