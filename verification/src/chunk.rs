//! The cached unit of terrain: a square block of cells and the biome
//! that dominates it.
use vstd::prelude::*;

use crate::biome::BiomeType;
use crate::intermediate_cell::IntermediateCell;

verus! {

/// A block of `chunk_size * chunk_size` cells in row-major order, plus
/// the most frequent of their biomes for coarse rendering.
#[derive(Debug, PartialEq, Eq)]
pub struct Chunk {
    pub cells: Vec<IntermediateCell>,
    pub dominant_biome: BiomeType,
}

/// The position of a biome in the enum's declaration order, used to
/// break ties between equally frequent biomes.
pub open spec fn spec_biome_index(b: BiomeType) -> int {
    match b {
        BiomeType::ArcticWater => 0,
        BiomeType::DeepTemperateWater => 1,
        BiomeType::DeepTropicalWater => 2,
        BiomeType::ShallowTemperateWater => 3,
        BiomeType::ShallowTropicalWater => 4,
        BiomeType::ShallowIceWater => 5,
        BiomeType::TropicalBeach => 6,
        BiomeType::TemperateBeach => 7,
        BiomeType::IceField => 8,
        BiomeType::Cliff => 9,
        BiomeType::Plain => 10,
        BiomeType::Savanna => 11,
        BiomeType::Forest => 12,
        BiomeType::TropicalRainforest => 13,
        BiomeType::Desert => 14,
        BiomeType::Taiga => 15,
        BiomeType::Lake => 16,
        BiomeType::Hills => 17,
        BiomeType::Dunes => 18,
        BiomeType::Montains => 19,
        BiomeType::IceMountains => 20,
        BiomeType::Plateau => 21,
        BiomeType::HighMountains => 22,
    }
}

/// The biome at a position in declaration order.
pub open spec fn spec_biome_of_index(i: int) -> BiomeType {
    if i == 0 {
        BiomeType::ArcticWater
    } else if i == 1 {
        BiomeType::DeepTemperateWater
    } else if i == 2 {
        BiomeType::DeepTropicalWater
    } else if i == 3 {
        BiomeType::ShallowTemperateWater
    } else if i == 4 {
        BiomeType::ShallowTropicalWater
    } else if i == 5 {
        BiomeType::ShallowIceWater
    } else if i == 6 {
        BiomeType::TropicalBeach
    } else if i == 7 {
        BiomeType::TemperateBeach
    } else if i == 8 {
        BiomeType::IceField
    } else if i == 9 {
        BiomeType::Cliff
    } else if i == 10 {
        BiomeType::Plain
    } else if i == 11 {
        BiomeType::Savanna
    } else if i == 12 {
        BiomeType::Forest
    } else if i == 13 {
        BiomeType::TropicalRainforest
    } else if i == 14 {
        BiomeType::Desert
    } else if i == 15 {
        BiomeType::Taiga
    } else if i == 16 {
        BiomeType::Lake
    } else if i == 17 {
        BiomeType::Hills
    } else if i == 18 {
        BiomeType::Dunes
    } else if i == 19 {
        BiomeType::Montains
    } else if i == 20 {
        BiomeType::IceMountains
    } else if i == 21 {
        BiomeType::Plateau
    } else {
        BiomeType::HighMountains
    }
}

/// Indexing is a bijection on the 23 biomes.
pub proof fn lemma_biome_index_roundtrip(b: BiomeType)
    ensures
        0 <= spec_biome_index(b) < 23,
        spec_biome_of_index(spec_biome_index(b)) == b,
{
}

fn biome_of_index(i: usize) -> (r: BiomeType)
    requires
        i < 23,
    ensures
        r == spec_biome_of_index(i as int),
        spec_biome_index(r) == i as int,
{
    if i == 0 {
        BiomeType::ArcticWater
    } else if i == 1 {
        BiomeType::DeepTemperateWater
    } else if i == 2 {
        BiomeType::DeepTropicalWater
    } else if i == 3 {
        BiomeType::ShallowTemperateWater
    } else if i == 4 {
        BiomeType::ShallowTropicalWater
    } else if i == 5 {
        BiomeType::ShallowIceWater
    } else if i == 6 {
        BiomeType::TropicalBeach
    } else if i == 7 {
        BiomeType::TemperateBeach
    } else if i == 8 {
        BiomeType::IceField
    } else if i == 9 {
        BiomeType::Cliff
    } else if i == 10 {
        BiomeType::Plain
    } else if i == 11 {
        BiomeType::Savanna
    } else if i == 12 {
        BiomeType::Forest
    } else if i == 13 {
        BiomeType::TropicalRainforest
    } else if i == 14 {
        BiomeType::Desert
    } else if i == 15 {
        BiomeType::Taiga
    } else if i == 16 {
        BiomeType::Lake
    } else if i == 17 {
        BiomeType::Hills
    } else if i == 18 {
        BiomeType::Dunes
    } else if i == 19 {
        BiomeType::Montains
    } else if i == 20 {
        BiomeType::IceMountains
    } else if i == 21 {
        BiomeType::Plateau
    } else {
        BiomeType::HighMountains
    }
}

/// How many cells of the block carry biome `b`.
pub open spec fn spec_biome_count(cells: Seq<IntermediateCell>, b: BiomeType) -> nat
    decreases cells.len(),
{
    if cells.len() == 0 {
        0
    } else {
        spec_biome_count(cells.drop_last(), b) + if cells.last().biome == b {
            1nat
        } else {
            0nat
        }
    }
}

fn count_biome(cells: &Vec<IntermediateCell>, b: BiomeType) -> (r: usize)
    ensures
        r == spec_biome_count(cells@, b),
{
    let mut cnt: usize = 0;
    let mut i: usize = 0;
    while i < cells.len()
        invariant
            i <= cells@.len(),
            cnt <= i,
            cnt == spec_biome_count(cells@.take(i as int), b),
        decreases cells@.len() - i,
    {
        proof {
            assert(cells@.take(i + 1).drop_last() =~= cells@.take(i as int));
            assert(cells@.take(i + 1).last() == cells@[i as int]);
        }
        if cells[i].biome == b {
            cnt = cnt + 1;
        }
        i = i + 1;
    }
    proof {
        assert(cells@.take(cells@.len() as int) =~= cells@);
    }
    cnt
}

/// The most frequent biome of the block; among equally frequent biomes
/// the one earliest in declaration order wins.
pub fn dominant_biome(cells: &Vec<IntermediateCell>) -> (r: BiomeType)
    requires
        cells@.len() >= 1,
    ensures
        forall|b: BiomeType| spec_biome_count(cells@, b) <= spec_biome_count(cells@, r),
        forall|b: BiomeType|
            spec_biome_count(cells@, b) == spec_biome_count(cells@, r) ==> spec_biome_index(r)
                <= spec_biome_index(b),
{
    let mut best = biome_of_index(0);
    let mut best_cnt = count_biome(cells, best);
    let mut k: usize = 1;
    while k < 23
        invariant
            1 <= k <= 23,
            0 <= spec_biome_index(best) < k,
            best == spec_biome_of_index(spec_biome_index(best)),
            best_cnt == spec_biome_count(cells@, best),
            forall|j: int|
                0 <= j < k ==> spec_biome_count(cells@, #[trigger] spec_biome_of_index(j))
                    <= best_cnt,
            forall|j: int|
                0 <= j < spec_biome_index(best) ==> spec_biome_count(
                    cells@,
                    #[trigger] spec_biome_of_index(j),
                ) < best_cnt,
        decreases 23 - k,
    {
        let cand = biome_of_index(k);
        let cnt = count_biome(cells, cand);
        if cnt > best_cnt {
            best = cand;
            best_cnt = cnt;
        }
        k = k + 1;
    }
    proof {
        assert forall|b: BiomeType| spec_biome_count(cells@, b) <= spec_biome_count(
            cells@,
            best,
        ) by {
            lemma_biome_index_roundtrip(b);
        }
        assert forall|b: BiomeType|
            spec_biome_count(cells@, b) == spec_biome_count(cells@, best) implies spec_biome_index(
            best,
        ) <= spec_biome_index(b) by {
            lemma_biome_index_roundtrip(b);
        }
    }
    best
}

/// An element-by-element copy of a chunk.
pub fn copy_chunk(c: &Chunk) -> (r: Chunk)
    ensures
        r.cells@ == c.cells@,
        r.dominant_biome == c.dominant_biome,
{
    let mut cells: Vec<IntermediateCell> = Vec::new();
    let mut i: usize = 0;
    while i < c.cells.len()
        invariant
            i <= c.cells@.len(),
            cells@ == c.cells@.take(i as int),
        decreases c.cells@.len() - i,
    {
        cells.push(c.cells[i]);
        proof {
            assert(cells@ =~= c.cells@.take(i + 1));
        }
        i = i + 1;
    }
    proof {
        assert(cells@ =~= c.cells@);
    }
    Chunk { cells, dominant_biome: c.dominant_biome }
}

} // verus!
