//! The fully rendered unit of world space: a biome plus an optional
//! building overlay produced by city generation.
use vstd::prelude::*;

use crate::biome::BiomeType;

verus! {

/// What occupies a city cell: a part of a building's outline or
/// interior, or a road.
#[derive(Clone, Copy, Debug, PartialEq, Eq, Structural)]
pub enum BuildingElement {
    BuildingTopLeft,
    BuildingTopRight,
    BuildingBottomLeft,
    BuildingBottomRight,
    BuildingHorizontal,
    BuildingVertical,
    BuildingInterior,
    Road,
}

/// A building element together with a door marker.
#[derive(Clone, Copy, Debug, PartialEq, Eq, Structural)]
pub struct BuildingPart {
    pub element: BuildingElement,
    pub is_door: bool,
}

/// One cell as handed to renderers: its biome and, inside a city, the
/// building part standing on it.
#[derive(Clone, Copy, Debug, PartialEq, Eq, Structural)]
pub struct ConcreteCell {
    pub biome: BiomeType,
    pub building_part: Option<BuildingPart>,
}

} // verus!
