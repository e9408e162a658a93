//! The raw field sample of one position, before any city overlay.
use vstd::prelude::*;

use crate::biome::BiomeType;

verus! {

/// The four fixed-point field values of one position and the biome they
/// classify into.
#[derive(Clone, Copy, Debug, PartialEq, Eq, Structural)]
pub struct IntermediateCell {
    pub temp: i64,
    pub moisture: i64,
    pub continentalness: i64,
    pub erosion: i64,
    pub biome: BiomeType,
}

} // verus!
