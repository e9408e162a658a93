//! The world generator: four independently seeded noise fields sampled
//! per position, classified into a biome, and a lazily generated city
//! overlay cached per chunk.
use vstd::prelude::*;

use std::collections::HashMap;

use crate::biome::spec_classify_sample;
use crate::biome::BiomeType;
use crate::city_generation::CityGenerator;
use crate::concrete_cell::BuildingElement;
use crate::concrete_cell::BuildingPart;
use crate::concrete_cell::ConcreteCell;
use crate::intermediate_cell::IntermediateCell;
use crate::occupancy::encode_key;
use crate::occupancy::spec_encode;
use crate::occupancy::valid_coord;
use crate::occupancy::Occupancy;
use crate::perlin_noise::spec_identity_perm;
use crate::perlin_noise::PerlinNoiseGenerator;
use crate::perlin_noise::MAX_SCALE;
use crate::perlin_noise::MAX_WORLD_COORD;
use crate::rng::random_seed;
use crate::rng::shuffled_by;
use crate::FIELD_ONE;
use crate::WorldGenError;

verus! {

/// Base divisor so that a global scale of 1.0 renders well.
pub const GLOBAL_SCALE_FIX: i64 = 70;

/// Smallest accepted global scale: 0.01 in fixed point.
pub const MIN_GLOBAL_SCALE: i64 = 100;

/// Largest accepted global scale: 1000.0 in fixed point.
pub const MAX_GLOBAL_SCALE: i64 = 10_000_000;

/// The per-field scale divisor at a zoom factor, in fixed point.
pub open spec fn spec_effective_scale(scale: int, zoom: int) -> int {
    scale * FIELD_ONE / zoom
}

/// Deterministic world generator, reproducible from its seed and
/// global scale alone.
#[derive(Debug)]
pub struct WorldGen {
    /// The seed everything is derived from.
    pub seed: u64,
    /// City overlays already generated, keyed by packed chunk
    /// coordinates.
    pub cities: HashMap<u64, Occupancy>,
    pub temperature_noise: PerlinNoiseGenerator,
    pub moisture_noise: PerlinNoiseGenerator,
    pub continentalness_noise: PerlinNoiseGenerator,
    pub erosion_noise: PerlinNoiseGenerator,
    /// Fixed-point scale divisors of the four fields.
    pub temp_scale: i64,
    pub moisture_scale: i64,
    pub continentalness_scale: i64,
    pub erosion_scale: i64,
}

/// The generator state that `WorldGen::new` builds from a seed and a
/// validated global scale: each field's table shuffled from a small
/// per-field seed offset, with the documented octave parameters.
pub open spec fn spec_built_from(w: WorldGen, global_scale: int, seed: u64) -> bool {
    &&& w.seed == seed
    &&& w.temperature_noise.spec_permutations() == shuffled_by(seed, spec_identity_perm())
    &&& w.temperature_noise.spec_lacunarity() == 13_000 && w.temperature_noise.spec_persistence()
        == 5_000 && w.temperature_noise.spec_octaves() == 4
    &&& w.moisture_noise.spec_permutations() == shuffled_by(
        seed.wrapping_add(2),
        spec_identity_perm(),
    )
    &&& w.moisture_noise.spec_lacunarity() == 13_000 && w.moisture_noise.spec_persistence()
        == 5_000 && w.moisture_noise.spec_octaves() == 4
    &&& w.continentalness_noise.spec_permutations() == shuffled_by(
        seed.wrapping_add(4),
        spec_identity_perm(),
    )
    &&& w.continentalness_noise.spec_lacunarity() == 17_000
        && w.continentalness_noise.spec_persistence() == 6_000
        && w.continentalness_noise.spec_octaves() == 8
    &&& w.erosion_noise.spec_permutations() == shuffled_by(
        seed.wrapping_add(8),
        spec_identity_perm(),
    )
    &&& w.erosion_noise.spec_lacunarity() == 20_000 && w.erosion_noise.spec_persistence() == 5_000
        && w.erosion_noise.spec_octaves() == 8
    &&& w.temp_scale == global_scale * GLOBAL_SCALE_FIX * 64
    &&& w.moisture_scale == global_scale * GLOBAL_SCALE_FIX * 64
    &&& w.continentalness_scale == global_scale * GLOBAL_SCALE_FIX * 64
    &&& w.erosion_scale == global_scale * GLOBAL_SCALE_FIX * 16
}

/// The field sample and biome of one position, as a pure function of
/// the generator state, the position and the zoom factor.
pub open spec fn spec_intermediate_cell(w: WorldGen, pos: (int, int), zoom: int)
    -> IntermediateCell {
    let t = w.temperature_noise.spec_sample(pos, spec_effective_scale(w.temp_scale as int, zoom));
    let m = w.moisture_noise.spec_sample(
        pos,
        spec_effective_scale(w.moisture_scale as int, zoom),
    );
    let c = w.continentalness_noise.spec_sample(
        pos,
        spec_effective_scale(w.continentalness_scale as int, zoom),
    );
    let e = w.erosion_noise.spec_sample(pos, spec_effective_scale(w.erosion_scale as int, zoom));
    IntermediateCell {
        temp: t as i64,
        moisture: m as i64,
        continentalness: c as i64,
        erosion: e as i64,
        biome: spec_classify_sample(t, m, c, e),
    }
}

impl WorldGen {
    /// All four noise fields are well formed and the field scales sit
    /// in the range every zoom factor accepted by sampling fits into.
    pub open spec fn wf(self) -> bool {
        &&& self.temperature_noise.wf()
        &&& self.moisture_noise.wf()
        &&& self.continentalness_noise.wf()
        &&& self.erosion_noise.wf()
        &&& FIELD_ONE <= self.temp_scale <= MAX_SCALE
        &&& FIELD_ONE <= self.moisture_scale <= MAX_SCALE
        &&& FIELD_ONE <= self.continentalness_scale <= MAX_SCALE
        &&& FIELD_ONE <= self.erosion_scale <= MAX_SCALE
    }

    /// The largest zoom factor sampling accepts: the smallest of the
    /// four field scales.
    pub open spec fn spec_max_zoom(self) -> int {
        let a = if self.temp_scale <= self.moisture_scale {
            self.temp_scale as int
        } else {
            self.moisture_scale as int
        };
        let b = if self.continentalness_scale <= self.erosion_scale {
            self.continentalness_scale as int
        } else {
            self.erosion_scale as int
        };
        if a <= b {
            a
        } else {
            b
        }
    }

    /// Build a world generator from a fixed-point global scale and an
    /// optional seed; a missing seed is drawn at random and reported
    /// through the `seed` field. Errs exactly when the scale is outside
    /// the accepted range.
    pub fn new(global_scale: i64, seed_opt: Option<u64>) -> (r: Result<Self, WorldGenError>)
        ensures
            match r {
                Ok(w) => {
                    &&& MIN_GLOBAL_SCALE <= global_scale <= MAX_GLOBAL_SCALE
                    &&& w.wf()
                    &&& spec_built_from(w, global_scale as int, w.seed)
                    &&& (seed_opt matches Some(sv) ==> w.seed == sv)
                    &&& w.cities@ == Map::<u64, Occupancy>::empty()
                },
                Err(e) => {
                    &&& e == WorldGenError::InvalidScale
                    &&& !(MIN_GLOBAL_SCALE <= global_scale <= MAX_GLOBAL_SCALE)
                },
            },
    {
        if !(MIN_GLOBAL_SCALE <= global_scale && global_scale <= MAX_GLOBAL_SCALE) {
            return Err(WorldGenError::InvalidScale);
        }
        let seed = match seed_opt {
            Some(seed_value) => seed_value,
            None => random_seed(),
        };
        let broad_scale = global_scale * GLOBAL_SCALE_FIX * 64;
        let erosion_scale = global_scale * GLOBAL_SCALE_FIX * 16;
        let temperature_noise = match PerlinNoiseGenerator::new(seed, 13_000, 5_000, 4) {
            Ok(g) => g,
            Err(e) => { return Err(e) },
        };
        let moisture_noise = match PerlinNoiseGenerator::new(
            seed.wrapping_add(2),
            13_000,
            5_000,
            4,
        ) {
            Ok(g) => g,
            Err(e) => { return Err(e) },
        };
        let continentalness_noise = match PerlinNoiseGenerator::new(
            seed.wrapping_add(4),
            17_000,
            6_000,
            8,
        ) {
            Ok(g) => g,
            Err(e) => { return Err(e) },
        };
        let erosion_noise = match PerlinNoiseGenerator::new(seed.wrapping_add(8), 20_000, 5_000, 8)
            {
            Ok(g) => g,
            Err(e) => { return Err(e) },
        };
        Ok(
            WorldGen {
                seed,
                cities: HashMap::new(),
                temperature_noise,
                moisture_noise,
                continentalness_noise,
                erosion_noise,
                temp_scale: broad_scale,
                moisture_scale: broad_scale,
                continentalness_scale: broad_scale,
                erosion_scale,
            },
        )
    }

    /// The per-field scale divisor at a zoom factor.
    fn effective_scale(scale: i64, zoom: i64) -> (r: i64)
        requires
            FIELD_ONE <= zoom <= scale <= MAX_SCALE,
        ensures
            r == spec_effective_scale(scale as int, zoom as int),
            FIELD_ONE <= r <= MAX_SCALE,
    {
        proof {
            assert(FIELD_ONE <= scale * FIELD_ONE / (zoom as int) <= MAX_SCALE)
                by (nonlinear_arith)
                requires
                    FIELD_ONE <= zoom <= scale <= MAX_SCALE,
                    FIELD_ONE == 10_000,
                    MAX_SCALE == 100_000_000_000,
            ;
        }
        let r128: i128 = (scale as i128) * (FIELD_ONE as i128) / (zoom as i128);
        r128 as i64
    }

    /// Sample the four fields at a position and classify them. Pure:
    /// the cell is pinned, value by value, by `spec_intermediate_cell`,
    /// so two generators in the same state agree everywhere.
    pub fn generate_intermediate_cell(&self, pos: (i64, i64), zoom: i64) -> (r: IntermediateCell)
        requires
            self.wf(),
            -MAX_WORLD_COORD <= pos.0 <= MAX_WORLD_COORD,
            -MAX_WORLD_COORD <= pos.1 <= MAX_WORLD_COORD,
            FIELD_ONE <= zoom <= self.spec_max_zoom(),
        ensures
            r == spec_intermediate_cell(*self, (pos.0 as int, pos.1 as int), zoom as int),
    {
        let temp = self.temperature_noise.noise(
            pos,
            Self::effective_scale(self.temp_scale, zoom),
        );
        let moisture = self.moisture_noise.noise(
            pos,
            Self::effective_scale(self.moisture_scale, zoom),
        );
        let continentalness = self.continentalness_noise.noise(
            pos,
            Self::effective_scale(self.continentalness_scale, zoom),
        );
        let erosion = self.erosion_noise.noise(
            pos,
            Self::effective_scale(self.erosion_scale, zoom),
        );
        IntermediateCell {
            temp,
            moisture,
            continentalness,
            erosion,
            biome: BiomeType::classify(temp, moisture, continentalness, erosion),
        }
    }

    /// The building element, if any, of the city overlay of `chunk_pos`
    /// at `pos`, generating and caching the city on the first visit.
    /// Errs only when city generation exhausts its retries.
    fn get_city_cell(&mut self, pos: (i64, i64), chunk_pos: (i64, i64)) -> (r: Result<
        Option<BuildingElement>,
        WorldGenError,
    >)
        requires
            valid_coord((pos.0 as int, pos.1 as int)),
            valid_coord((chunk_pos.0 as int, chunk_pos.1 as int)),
        ensures
            *final(self) == (WorldGen { cities: final(self).cities, ..*old(self) }),
            old(self).cities@.contains_key(
                spec_encode((chunk_pos.0 as int, chunk_pos.1 as int)) as u64,
            ) ==> final(self).cities@ == old(self).cities@ && r matches Ok(_),
            match r {
                Ok(res) => {
                    let key = spec_encode((chunk_pos.0 as int, chunk_pos.1 as int)) as u64;
                    let p = (pos.0 as int, pos.1 as int);
                    &&& final(self).cities@.contains_key(key)
                    &&& match res {
                        Some(e) => final(self).cities@[key]@.contains_key(p)
                            && final(self).cities@[key]@[p] == e,
                        None => !final(self).cities@[key]@.contains_key(p),
                    }
                },
                Err(e) => e == WorldGenError::PlacementExhausted,
            },
    {
        let key = encode_key(chunk_pos.0, chunk_pos.1);
        if !self.cities.contains_key(&key) {
            let mut city = match CityGenerator::new(self.seed, 10, 20, 10, 20, 30, 50, 100) {
                Ok(c) => c,
                Err(e) => {
                    proof {
                        assert(false);
                    }
                    return Err(e);
                },
            };
            proof {
                assert(city.important_buildings_max_distance == 100);
                assert(100int / 2int == 50int);
                assert(city.spec_valid_generate(5, 1, 1));
            }
            match city.generate(5, 1, 1) {
                Ok(()) => (),
                Err(e) => {
                    proof {
                        assert(e == WorldGenError::PlacementExhausted);
                    }
                    return Err(e);
                },
            }
            self.cities.insert(key, city.is_something);
        }
        match self.cities.get(&key) {
            Some(city) => Ok(city.get(pos.0, pos.1)),
            None => {
                proof {
                    assert(false);
                }
                Ok(None)
            },
        }
    }

    /// The fully rendered cell of a position: its biome, overlaid with
    /// the building part the chunk's city puts there. Errs only when
    /// city generation exhausts its retries.
    pub fn generate_concrete_cell(&mut self, pos: (i64, i64), chunk_pos: (i64, i64)) -> (r: Result<
        ConcreteCell,
        WorldGenError,
    >)
        requires
            old(self).wf(),
            -MAX_WORLD_COORD <= pos.0 <= MAX_WORLD_COORD,
            -MAX_WORLD_COORD <= pos.1 <= MAX_WORLD_COORD,
            valid_coord((chunk_pos.0 as int, chunk_pos.1 as int)),
        ensures
            *final(self) == (WorldGen { cities: final(self).cities, ..*old(self) }),
            final(self).wf(),
            old(self).cities@.contains_key(
                spec_encode((chunk_pos.0 as int, chunk_pos.1 as int)) as u64,
            ) ==> final(self).cities@ == old(self).cities@ && r matches Ok(_),
            match r {
                Ok(c) => {
                    let key = spec_encode((chunk_pos.0 as int, chunk_pos.1 as int)) as u64;
                    let p = (pos.0 as int, pos.1 as int);
                    &&& c.biome == spec_intermediate_cell(
                        *old(self),
                        p,
                        FIELD_ONE as int,
                    ).biome
                    &&& final(self).cities@.contains_key(key)
                    &&& match c.building_part {
                        Some(bp) => !bp.is_door && final(self).cities@[key]@.contains_key(p)
                            && final(self).cities@[key]@[p] == bp.element,
                        None => !final(self).cities@[key]@.contains_key(p),
                    }
                },
                Err(e) => e == WorldGenError::PlacementExhausted,
            },
    {
        let intermediate = self.generate_intermediate_cell(pos, FIELD_ONE);
        let element = match self.get_city_cell(pos, chunk_pos) {
            Ok(e) => e,
            Err(e) => { return Err(e) },
        };
        let building_part = match element {
            Some(e) => Some(BuildingPart { element: e, is_door: false }),
            None => None,
        };
        Ok(ConcreteCell { biome: intermediate.biome, building_part })
    }
}

/// Law: sampling is deterministic. Two world generators built from the
/// same seed and global scale give bit-identical field samples and
/// biomes at every position and zoom, across repeated calls, fresh
/// instances and process restarts.
pub proof fn lemma_world_deterministic(
    w1: WorldGen,
    w2: WorldGen,
    global_scale: int,
    seed: u64,
    pos: (int, int),
    zoom: int,
)
    requires
        spec_built_from(w1, global_scale, seed),
        spec_built_from(w2, global_scale, seed),
    ensures
        spec_intermediate_cell(w1, pos, zoom) == spec_intermediate_cell(w2, pos, zoom),
{
    crate::perlin_noise::lemma_sample_deterministic(
        w1.temperature_noise,
        w2.temperature_noise,
        pos,
        spec_effective_scale(w1.temp_scale as int, zoom),
    );
    crate::perlin_noise::lemma_sample_deterministic(
        w1.moisture_noise,
        w2.moisture_noise,
        pos,
        spec_effective_scale(w1.moisture_scale as int, zoom),
    );
    crate::perlin_noise::lemma_sample_deterministic(
        w1.continentalness_noise,
        w2.continentalness_noise,
        pos,
        spec_effective_scale(w1.continentalness_scale as int, zoom),
    );
    crate::perlin_noise::lemma_sample_deterministic(
        w1.erosion_noise,
        w2.erosion_noise,
        pos,
        spec_effective_scale(w1.erosion_scale as int, zoom),
    );
}

} // verus!
