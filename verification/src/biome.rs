//! Classification of continuous field samples into discrete biomes.
//!
//! Each of the four fields (temperature, moisture, continentalness,
//! erosion) is bucketed independently into an ordinal level through
//! non-overlapping, exhaustive bands; continentalness and erosion are then
//! combined into a landform, which temperature and moisture refine into
//! the final biome. Classification is total: every fixed-point sample
//! tuple maps to exactly one biome, values beyond the nominal [-1, 1]
//! range folding into the nearest extreme band.
use vstd::prelude::*;

verus! {

#[derive(Clone, Copy, Debug, PartialEq, Eq, Structural)]
pub enum TemperatureLevel {
    Freezing,
    Cold,
    Temperate,
    Warm,
    Hot,
}

#[derive(Clone, Copy, Debug, PartialEq, Eq, Structural)]
pub enum MoistureLevel {
    Arid,
    Dry,
    Moderate,
    Wet,
    Rainforest,
}

#[derive(Clone, Copy, Debug, PartialEq, Eq, Structural)]
pub enum ContinentalnessLevel {
    DeepWater,
    ShallowWater,
    Beach,
    Land,
    Farland,
}

#[derive(Clone, Copy, Debug, PartialEq, Eq, Structural)]
pub enum ErosionLevel {
    Flat,
    SlightHills,
    Hills,
    Mountains,
}

/// The four ordinal levels of one field sample.
#[derive(Clone, Copy, Debug, PartialEq, Eq, Structural)]
pub struct BiomeSettings {
    pub temperature: TemperatureLevel,
    pub moisture: MoistureLevel,
    pub continentalness: ContinentalnessLevel,
    pub erosion: ErosionLevel,
}

/// Temperature bands: cut points at -0.8, -0.4, 0.4 and 0.8, in
/// fixed-point ten-thousandths. Values below the lowest cut point fold
/// into `Freezing`, values above the highest into `Hot`.
pub open spec fn spec_temperature_level(t: int) -> TemperatureLevel {
    if t <= -8000 {
        TemperatureLevel::Freezing
    } else if t <= -4000 {
        TemperatureLevel::Cold
    } else if t <= 4000 {
        TemperatureLevel::Temperate
    } else if t <= 8000 {
        TemperatureLevel::Warm
    } else {
        TemperatureLevel::Hot
    }
}

/// Moisture bands at -0.8, -0.4, 0.4 and 0.8.
pub open spec fn spec_moisture_level(m: int) -> MoistureLevel {
    if m <= -8000 {
        MoistureLevel::Arid
    } else if m <= -4000 {
        MoistureLevel::Dry
    } else if m <= 4000 {
        MoistureLevel::Moderate
    } else if m <= 8000 {
        MoistureLevel::Wet
    } else {
        MoistureLevel::Rainforest
    }
}

/// Continentalness bands at -0.8, 0.0, 0.4 and 0.8.
pub open spec fn spec_continentalness_level(c: int) -> ContinentalnessLevel {
    if c <= -8000 {
        ContinentalnessLevel::DeepWater
    } else if c <= 0 {
        ContinentalnessLevel::ShallowWater
    } else if c <= 4000 {
        ContinentalnessLevel::Beach
    } else if c <= 8000 {
        ContinentalnessLevel::Land
    } else {
        ContinentalnessLevel::Farland
    }
}

/// Erosion bands at -0.6, 0.2 and 0.6.
pub open spec fn spec_erosion_level(e: int) -> ErosionLevel {
    if e <= -6000 {
        ErosionLevel::Flat
    } else if e <= 2000 {
        ErosionLevel::SlightHills
    } else if e <= 6000 {
        ErosionLevel::Hills
    } else {
        ErosionLevel::Mountains
    }
}

pub open spec fn spec_biome_settings(t: int, m: int, c: int, e: int) -> BiomeSettings {
    BiomeSettings {
        temperature: spec_temperature_level(t),
        moisture: spec_moisture_level(m),
        continentalness: spec_continentalness_level(c),
        erosion: spec_erosion_level(e),
    }
}

impl BiomeSettings {
    /// Bucket a fixed-point field sample into its four ordinal levels.
    pub fn new(temp: i64, moisture: i64, continentalness: i64, erosion: i64) -> (r: Self)
        ensures
            r == spec_biome_settings(temp as int, moisture as int, continentalness as int, erosion as int),
    {
        let temperature = if temp <= -8000 {
            TemperatureLevel::Freezing
        } else if temp <= -4000 {
            TemperatureLevel::Cold
        } else if temp <= 4000 {
            TemperatureLevel::Temperate
        } else if temp <= 8000 {
            TemperatureLevel::Warm
        } else {
            TemperatureLevel::Hot
        };
        let moisture = if moisture <= -8000 {
            MoistureLevel::Arid
        } else if moisture <= -4000 {
            MoistureLevel::Dry
        } else if moisture <= 4000 {
            MoistureLevel::Moderate
        } else if moisture <= 8000 {
            MoistureLevel::Wet
        } else {
            MoistureLevel::Rainforest
        };
        let continentalness = if continentalness <= -8000 {
            ContinentalnessLevel::DeepWater
        } else if continentalness <= 0 {
            ContinentalnessLevel::ShallowWater
        } else if continentalness <= 4000 {
            ContinentalnessLevel::Beach
        } else if continentalness <= 8000 {
            ContinentalnessLevel::Land
        } else {
            ContinentalnessLevel::Farland
        };
        let erosion = if erosion <= -6000 {
            ErosionLevel::Flat
        } else if erosion <= 2000 {
            ErosionLevel::SlightHills
        } else if erosion <= 6000 {
            ErosionLevel::Hills
        } else {
            ErosionLevel::Mountains
        };
        BiomeSettings { temperature, moisture, continentalness, erosion }
    }
}

/// The landform obtained from continentalness and erosion alone, before
/// temperature and moisture pick the final biome.
#[derive(Clone, Copy, Debug, PartialEq, Eq, Structural)]
pub enum IntermediateBiomeType {
    DeepWater,
    ShallowWater,
    Beach,
    Cliff,
    Plain,
    Hills,
    Mountains,
    Plateau,
    HighMountains,
}

pub open spec fn spec_landform(s: BiomeSettings) -> IntermediateBiomeType {
    match s.continentalness {
        ContinentalnessLevel::DeepWater => IntermediateBiomeType::DeepWater,
        ContinentalnessLevel::ShallowWater => match s.erosion {
            ErosionLevel::Mountains => IntermediateBiomeType::Cliff,
            _ => IntermediateBiomeType::ShallowWater,
        },
        ContinentalnessLevel::Beach => IntermediateBiomeType::Beach,
        ContinentalnessLevel::Land => match s.erosion {
            ErosionLevel::Flat | ErosionLevel::SlightHills => IntermediateBiomeType::Plain,
            ErosionLevel::Hills => IntermediateBiomeType::Hills,
            ErosionLevel::Mountains => IntermediateBiomeType::HighMountains,
        },
        ContinentalnessLevel::Farland => match s.erosion {
            ErosionLevel::Flat | ErosionLevel::SlightHills => IntermediateBiomeType::Plain,
            ErosionLevel::Hills => IntermediateBiomeType::Plateau,
            ErosionLevel::Mountains => IntermediateBiomeType::HighMountains,
        },
    }
}

/// Every terrain category the classifier can produce.
#[derive(Clone, Copy, Debug, PartialEq, Eq, Structural)]
pub enum BiomeType {
    ArcticWater,
    DeepTemperateWater,
    DeepTropicalWater,
    ShallowTemperateWater,
    ShallowTropicalWater,
    ShallowIceWater,
    TropicalBeach,
    TemperateBeach,
    IceField,
    Cliff,
    Plain,
    Savanna,
    Forest,
    TropicalRainforest,
    Desert,
    Taiga,
    Lake,
    Hills,
    Dunes,
    Montains,
    IceMountains,
    Plateau,
    HighMountains,
}

pub open spec fn spec_refine(
    landform: IntermediateBiomeType,
    t: TemperatureLevel,
    m: MoistureLevel,
) -> BiomeType {
    match landform {
        IntermediateBiomeType::DeepWater => match t {
            TemperatureLevel::Freezing => BiomeType::ArcticWater,
            TemperatureLevel::Cold | TemperatureLevel::Temperate => BiomeType::DeepTemperateWater,
            TemperatureLevel::Warm | TemperatureLevel::Hot => BiomeType::DeepTropicalWater,
        },
        IntermediateBiomeType::ShallowWater => match t {
            TemperatureLevel::Freezing => BiomeType::ShallowIceWater,
            TemperatureLevel::Cold | TemperatureLevel::Temperate => BiomeType::ShallowTemperateWater,
            TemperatureLevel::Warm | TemperatureLevel::Hot => BiomeType::ShallowTropicalWater,
        },
        IntermediateBiomeType::Beach => match t {
            TemperatureLevel::Freezing => BiomeType::IceField,
            TemperatureLevel::Cold | TemperatureLevel::Temperate => BiomeType::TemperateBeach,
            TemperatureLevel::Warm | TemperatureLevel::Hot => BiomeType::TropicalBeach,
        },
        IntermediateBiomeType::Cliff => BiomeType::Cliff,
        IntermediateBiomeType::Plain => match t {
            TemperatureLevel::Freezing => BiomeType::Taiga,
            TemperatureLevel::Cold | TemperatureLevel::Temperate => match m {
                MoistureLevel::Arid | MoistureLevel::Dry | MoistureLevel::Moderate => BiomeType::Plain,
                MoistureLevel::Wet => BiomeType::Forest,
                MoistureLevel::Rainforest => BiomeType::Lake,
            },
            TemperatureLevel::Warm | TemperatureLevel::Hot => match m {
                MoistureLevel::Arid | MoistureLevel::Dry => BiomeType::Desert,
                MoistureLevel::Moderate => BiomeType::Savanna,
                MoistureLevel::Wet => BiomeType::Forest,
                MoistureLevel::Rainforest => BiomeType::TropicalRainforest,
            },
        },
        IntermediateBiomeType::Hills => match t {
            TemperatureLevel::Freezing => BiomeType::IceMountains,
            TemperatureLevel::Cold | TemperatureLevel::Temperate => BiomeType::Hills,
            TemperatureLevel::Warm | TemperatureLevel::Hot => BiomeType::Dunes,
        },
        IntermediateBiomeType::Mountains => match t {
            TemperatureLevel::Freezing => BiomeType::IceMountains,
            _ => BiomeType::Montains,
        },
        IntermediateBiomeType::Plateau => BiomeType::Plateau,
        IntermediateBiomeType::HighMountains => BiomeType::HighMountains,
    }
}

/// The whole classification: a total, pure function of the four levels.
pub open spec fn spec_classify(s: BiomeSettings) -> BiomeType {
    spec_refine(spec_landform(s), s.temperature, s.moisture)
}

/// Classification of a raw fixed-point sample tuple.
pub open spec fn spec_classify_sample(t: int, m: int, c: int, e: int) -> BiomeType {
    spec_classify(spec_biome_settings(t, m, c, e))
}

impl IntermediateBiomeType {
    /// Combine continentalness and erosion into a landform.
    pub fn from_settings(s: BiomeSettings) -> (r: Self)
        ensures
            r == spec_landform(s),
    {
        match s.continentalness {
            ContinentalnessLevel::DeepWater => IntermediateBiomeType::DeepWater,
            ContinentalnessLevel::ShallowWater => match s.erosion {
                ErosionLevel::Mountains => IntermediateBiomeType::Cliff,
                _ => IntermediateBiomeType::ShallowWater,
            },
            ContinentalnessLevel::Beach => IntermediateBiomeType::Beach,
            ContinentalnessLevel::Land => match s.erosion {
                ErosionLevel::Flat | ErosionLevel::SlightHills => IntermediateBiomeType::Plain,
                ErosionLevel::Hills => IntermediateBiomeType::Hills,
                ErosionLevel::Mountains => IntermediateBiomeType::HighMountains,
            },
            ContinentalnessLevel::Farland => match s.erosion {
                ErosionLevel::Flat | ErosionLevel::SlightHills => IntermediateBiomeType::Plain,
                ErosionLevel::Hills => IntermediateBiomeType::Plateau,
                ErosionLevel::Mountains => IntermediateBiomeType::HighMountains,
            },
        }
    }
}

impl BiomeType {
    /// Refine a landform with temperature and moisture.
    pub fn from_settings(s: BiomeSettings) -> (r: Self)
        ensures
            r == spec_classify(s),
    {
        let landform = IntermediateBiomeType::from_settings(s);
        match landform {
            IntermediateBiomeType::DeepWater => match s.temperature {
                TemperatureLevel::Freezing => BiomeType::ArcticWater,
                TemperatureLevel::Cold | TemperatureLevel::Temperate => BiomeType::DeepTemperateWater,
                TemperatureLevel::Warm | TemperatureLevel::Hot => BiomeType::DeepTropicalWater,
            },
            IntermediateBiomeType::ShallowWater => match s.temperature {
                TemperatureLevel::Freezing => BiomeType::ShallowIceWater,
                TemperatureLevel::Cold | TemperatureLevel::Temperate => BiomeType::ShallowTemperateWater,
                TemperatureLevel::Warm | TemperatureLevel::Hot => BiomeType::ShallowTropicalWater,
            },
            IntermediateBiomeType::Beach => match s.temperature {
                TemperatureLevel::Freezing => BiomeType::IceField,
                TemperatureLevel::Cold | TemperatureLevel::Temperate => BiomeType::TemperateBeach,
                TemperatureLevel::Warm | TemperatureLevel::Hot => BiomeType::TropicalBeach,
            },
            IntermediateBiomeType::Cliff => BiomeType::Cliff,
            IntermediateBiomeType::Plain => match s.temperature {
                TemperatureLevel::Freezing => BiomeType::Taiga,
                TemperatureLevel::Cold | TemperatureLevel::Temperate => match s.moisture {
                    MoistureLevel::Arid | MoistureLevel::Dry | MoistureLevel::Moderate => BiomeType::Plain,
                    MoistureLevel::Wet => BiomeType::Forest,
                    MoistureLevel::Rainforest => BiomeType::Lake,
                },
                TemperatureLevel::Warm | TemperatureLevel::Hot => match s.moisture {
                    MoistureLevel::Arid | MoistureLevel::Dry => BiomeType::Desert,
                    MoistureLevel::Moderate => BiomeType::Savanna,
                    MoistureLevel::Wet => BiomeType::Forest,
                    MoistureLevel::Rainforest => BiomeType::TropicalRainforest,
                },
            },
            IntermediateBiomeType::Hills => match s.temperature {
                TemperatureLevel::Freezing => BiomeType::IceMountains,
                TemperatureLevel::Cold | TemperatureLevel::Temperate => BiomeType::Hills,
                TemperatureLevel::Warm | TemperatureLevel::Hot => BiomeType::Dunes,
            },
            IntermediateBiomeType::Mountains => match s.temperature {
                TemperatureLevel::Freezing => BiomeType::IceMountains,
                _ => BiomeType::Montains,
            },
            IntermediateBiomeType::Plateau => BiomeType::Plateau,
            IntermediateBiomeType::HighMountains => BiomeType::HighMountains,
        }
    }

    /// Classify a raw fixed-point sample tuple.
    pub fn classify(temp: i64, moisture: i64, continentalness: i64, erosion: i64) -> (r: Self)
        ensures
            r == spec_classify_sample(temp as int, moisture as int, continentalness as int, erosion as int),
    {
        BiomeType::from_settings(BiomeSettings::new(temp, moisture, continentalness, erosion))
    }
}

/// The display color of each biome, as an RGB triple.
pub open spec fn spec_color(b: BiomeType) -> Seq<u8> {
    match b {
        BiomeType::ArcticWater => seq![204u8, 229u8, 255u8],
        BiomeType::DeepTemperateWater => seq![0u8, 46u8, 240u8],
        BiomeType::DeepTropicalWater => seq![67u8, 159u8, 240u8],
        BiomeType::ShallowTemperateWater => seq![83u8, 115u8, 247u8],
        BiomeType::ShallowTropicalWater => seq![115u8, 182u8, 240u8],
        BiomeType::ShallowIceWater => seq![139u8, 243u8, 255u8],
        BiomeType::TropicalBeach => seq![255u8, 249u8, 99u8],
        BiomeType::TemperateBeach => seq![237u8, 234u8, 147u8],
        BiomeType::IceField => seq![221u8, 246u8, 255u8],
        BiomeType::Cliff => seq![183u8, 187u8, 196u8],
        BiomeType::Plain => seq![27u8, 250u8, 103u8],
        BiomeType::Savanna => seq![255u8, 177u8, 60u8],
        BiomeType::Forest => seq![1u8, 191u8, 32u8],
        BiomeType::TropicalRainforest => seq![25u8, 191u8, 1u8],
        BiomeType::Desert => seq![245u8, 232u8, 90u8],
        BiomeType::Taiga => seq![255u8, 255u8, 255u8],
        BiomeType::Lake => seq![71u8, 211u8, 255u8],
        BiomeType::Hills => seq![73u8, 196u8, 143u8],
        BiomeType::Dunes => seq![209u8, 170u8, 18u8],
        BiomeType::Montains => seq![179u8, 178u8, 177u8],
        BiomeType::IceMountains => seq![234u8, 239u8, 240u8],
        BiomeType::Plateau => seq![179u8, 197u8, 201u8],
        BiomeType::HighMountains => seq![105u8, 111u8, 112u8],
    }
}

impl BiomeType {
    /// The fixed display color of this biome.
    pub fn color(&self) -> (r: [u8; 3])
        ensures
            r@ == spec_color(*self),
    {
        match self {
            BiomeType::ArcticWater => [204, 229, 255],
            BiomeType::DeepTemperateWater => [0, 46, 240],
            BiomeType::DeepTropicalWater => [67, 159, 240],
            BiomeType::ShallowTemperateWater => [83, 115, 247],
            BiomeType::ShallowTropicalWater => [115, 182, 240],
            BiomeType::ShallowIceWater => [139, 243, 255],
            BiomeType::TropicalBeach => [255, 249, 99],
            BiomeType::TemperateBeach => [237, 234, 147],
            BiomeType::IceField => [221, 246, 255],
            BiomeType::Cliff => [183, 187, 196],
            BiomeType::Plain => [27, 250, 103],
            BiomeType::Savanna => [255, 177, 60],
            BiomeType::Forest => [1, 191, 32],
            BiomeType::TropicalRainforest => [25, 191, 1],
            BiomeType::Desert => [245, 232, 90],
            BiomeType::Taiga => [255, 255, 255],
            BiomeType::Lake => [71, 211, 255],
            BiomeType::Hills => [73, 196, 143],
            BiomeType::Dunes => [209, 170, 18],
            BiomeType::Montains => [179, 178, 177],
            BiomeType::IceMountains => [234, 239, 240],
            BiomeType::Plateau => [179, 197, 201],
            BiomeType::HighMountains => [105, 111, 112],
        }
    }
}

} // verus!
