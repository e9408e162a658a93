//! Classification: totality over a wide random sample, exact band
//! boundaries, and the color table.
use world_gen::biome::BiomeSettings;
use world_gen::biome::BiomeType;
use world_gen::biome::ContinentalnessLevel;
use world_gen::biome::ErosionLevel;
use world_gen::biome::MoistureLevel;
use world_gen::biome::TemperatureLevel;

/// A tiny deterministic generator for test inputs.
struct Lcg(u64);

impl Lcg {
    fn next(&mut self) -> u64 {
        self.0 = self
            .0
            .wrapping_mul(6364136223846793005)
            .wrapping_add(1442695040888963407);
        self.0
    }

    /// A value in [-20000, 20000], spanning twice the nominal field range.
    fn field_value(&mut self) -> i64 {
        (self.next() % 40001) as i64 - 20000
    }
}

#[test]
fn classification_is_total_on_random_samples() {
    let mut rng = Lcg(0x5eed);
    for _ in 0..10_000 {
        let t = rng.field_value();
        let m = rng.field_value();
        let c = rng.field_value();
        let e = rng.field_value();
        // Classification must return exactly one biome for every tuple;
        // reaching color() proves a concrete variant came out.
        let biome = BiomeType::classify(t, m, c, e);
        let color = biome.color();
        assert_eq!(color.len(), 3);
    }
}

#[test]
fn temperature_bands_have_documented_boundaries() {
    let s = BiomeSettings::new(-8000, 0, 0, 0);
    assert_eq!(s.temperature, TemperatureLevel::Freezing);
    let s = BiomeSettings::new(-7999, 0, 0, 0);
    assert_eq!(s.temperature, TemperatureLevel::Cold);
    let s = BiomeSettings::new(-4000, 0, 0, 0);
    assert_eq!(s.temperature, TemperatureLevel::Cold);
    let s = BiomeSettings::new(4000, 0, 0, 0);
    assert_eq!(s.temperature, TemperatureLevel::Temperate);
    let s = BiomeSettings::new(8000, 0, 0, 0);
    assert_eq!(s.temperature, TemperatureLevel::Warm);
    let s = BiomeSettings::new(8001, 0, 0, 0);
    assert_eq!(s.temperature, TemperatureLevel::Hot);
    // Values beyond the nominal range fold into the nearest band.
    let s = BiomeSettings::new(-30000, 0, 0, 0);
    assert_eq!(s.temperature, TemperatureLevel::Freezing);
    let s = BiomeSettings::new(30000, 0, 0, 0);
    assert_eq!(s.temperature, TemperatureLevel::Hot);
}

#[test]
fn remaining_bands_have_documented_boundaries() {
    let s = BiomeSettings::new(0, -8000, -8000, -6000);
    assert_eq!(s.moisture, MoistureLevel::Arid);
    assert_eq!(s.continentalness, ContinentalnessLevel::DeepWater);
    assert_eq!(s.erosion, ErosionLevel::Flat);
    let s = BiomeSettings::new(0, 8001, 0, 2000);
    assert_eq!(s.moisture, MoistureLevel::Rainforest);
    assert_eq!(s.continentalness, ContinentalnessLevel::ShallowWater);
    assert_eq!(s.erosion, ErosionLevel::SlightHills);
    let s = BiomeSettings::new(0, 0, 4000, 6000);
    assert_eq!(s.continentalness, ContinentalnessLevel::Beach);
    assert_eq!(s.erosion, ErosionLevel::Hills);
    let s = BiomeSettings::new(0, 0, 8000, 6001);
    assert_eq!(s.continentalness, ContinentalnessLevel::Land);
    assert_eq!(s.erosion, ErosionLevel::Mountains);
    let s = BiomeSettings::new(0, 0, 8001, 0);
    assert_eq!(s.continentalness, ContinentalnessLevel::Farland);
}

#[test]
fn combination_table_gives_expected_biomes() {
    // Deep freezing water.
    assert_eq!(BiomeType::classify(-10000, 0, -9000, 0), BiomeType::ArcticWater);
    // A temperate plain.
    assert_eq!(BiomeType::classify(0, 0, 6000, -7000), BiomeType::Plain);
    // A hot, arid plain is a desert.
    assert_eq!(BiomeType::classify(9000, -9000, 6000, -7000), BiomeType::Desert);
    // A freezing plain is taiga.
    assert_eq!(BiomeType::classify(-9000, 0, 6000, -7000), BiomeType::Taiga);
    // Shallow water over mountainous erosion is a cliff.
    assert_eq!(BiomeType::classify(0, 0, -4000, 9000), BiomeType::Cliff);
    // Far land with mountainous erosion.
    assert_eq!(BiomeType::classify(0, 0, 9000, 9000), BiomeType::HighMountains);
    // A warm beach.
    assert_eq!(BiomeType::classify(9000, 0, 2000, 0), BiomeType::TropicalBeach);
    // A temperate wet plain is forest.
    assert_eq!(BiomeType::classify(0, 6000, 6000, -7000), BiomeType::Forest);
}

#[test]
fn color_table_matches_documented_values() {
    assert_eq!(BiomeType::ArcticWater.color(), [204, 229, 255]);
    assert_eq!(BiomeType::Plain.color(), [27, 250, 103]);
    assert_eq!(BiomeType::Desert.color(), [245, 232, 90]);
    assert_eq!(BiomeType::Taiga.color(), [255, 255, 255]);
    assert_eq!(BiomeType::HighMountains.color(), [105, 111, 112]);
}
