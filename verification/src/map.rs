//! The spatial cache over the infinite plane: world coordinates map to
//! chunk coordinates by floor division, chunks and cells are generated
//! lazily and memoized, and changing the scale invalidates everything.
use vstd::prelude::*;

use std::collections::HashMap;

use crate::chunk::dominant_biome;
use crate::chunk::Chunk;
use crate::chunk::copy_chunk;
use crate::concrete_cell::ConcreteCell;
use crate::intermediate_cell::IntermediateCell;
use crate::occupancy::encode_key;
use crate::occupancy::spec_encode;
use crate::occupancy::valid_coord;
use crate::world::spec_built_from;
use crate::world::spec_intermediate_cell;
use crate::world::WorldGen;
use crate::world::MAX_GLOBAL_SCALE;
use crate::world::MIN_GLOBAL_SCALE;
use crate::FIELD_ONE;
use crate::WorldGenError;

verus! {

/// Largest accepted chunk side.
pub const MAX_CHUNK_SIZE: i64 = 256;

/// Largest chunk coordinate magnitude the cache addresses; together
/// with the chunk size cap it keeps every cell coordinate within the
/// range the noise fields accept.
pub const MAX_CHUNK_COORD: i64 = 3000;

/// Floor division: the quotient rounded toward negative infinity,
/// which the ghost `/` on a positive divisor also denotes.
pub fn floor_div(a: i64, b: i64) -> (r: i64)
    requires
        1 <= b,
        -1_000_000_000 <= a <= 1_000_000_000,
        b <= 1_000_000_000,
    ensures
        r == a as int / b as int,
{
    if a >= 0 {
        a / b
    } else {
        let na = -a;
        let q = (na + b - 1) / b;
        proof {
            let qi = (na + b - 1) as int / b as int;
            assert(b * qi <= na + b - 1 < b * qi + b) by {
                vstd::arithmetic::div_mod::lemma_fundamental_div_mod(na + b - 1, b as int);
                vstd::arithmetic::div_mod::lemma_mod_bound(na + b - 1, b as int);
            }
            assert(b * (-qi) <= a < b * (-qi) + b) by (nonlinear_arith)
                requires
                    b * qi <= na + b - 1 < b * qi + b,
                    na == -a,
                    1 <= b,
            ;
            vstd::arithmetic::div_mod::lemma_fundamental_div_mod_converse(
                a as int,
                b as int,
                -qi,
                a - b * (-qi),
            );
        }
        -q
    }
}

/// Law: the chunk coordinate of a world coordinate brackets it. For a
/// positive chunk size `c`, `c * (x / c) <= x < c * (x / c) + c`, also
/// for negative `x`.
pub proof fn lemma_chunk_coord_bounds(x: int, c: int)
    requires
        0 < c,
    ensures
        c * (x / c) <= x < c * (x / c) + c,
{
    vstd::arithmetic::div_mod::lemma_fundamental_div_mod(x, c);
    vstd::arithmetic::div_mod::lemma_mod_bound(x, c);
}

/// The lazily generated, memoized world map.
#[derive(Debug)]
pub struct WorldMap {
    /// The world generator.
    pub generator: WorldGen,
    /// Concrete cells generated so far, keyed by packed coordinates.
    pub cells: HashMap<u64, ConcreteCell>,
    /// Chunks generated so far, keyed by packed chunk coordinates.
    pub chunks: HashMap<u64, Chunk>,
    /// Side length of a chunk, fixed at construction.
    pub chunk_size: i64,
    /// The global scale the generator was configured with.
    pub global_scale: i64,
}

impl WorldMap {
    /// Chunk coordinates the cache addresses.
    pub open spec fn spec_valid_chunk_coord(self, c: (int, int)) -> bool {
        -MAX_CHUNK_COORD <= c.0 <= MAX_CHUNK_COORD && -MAX_CHUNK_COORD <= c.1 <= MAX_CHUNK_COORD
    }

    /// World coordinates the cache addresses: those whose chunk is
    /// addressable.
    pub open spec fn spec_valid_cell_pos(self, p: (int, int)) -> bool {
        -MAX_CHUNK_COORD * self.chunk_size <= p.0 < MAX_CHUNK_COORD * self.chunk_size
            && -MAX_CHUNK_COORD * self.chunk_size <= p.1 < MAX_CHUNK_COORD * self.chunk_size
    }

    /// The cell a chunk holds at row-major index `j`, as a pure
    /// function of the generator state.
    pub open spec fn spec_cell_at(self, c: (int, int), j: int) -> IntermediateCell {
        spec_intermediate_cell(
            self.generator,
            (c.0 * self.chunk_size + j % (self.chunk_size as int), c.1 * self.chunk_size + j / (
            self.chunk_size as int)),
            FIELD_ONE as int,
        )
    }

    /// What the chunk of coordinate `c` must hold: one cell per
    /// position, pinned value by value, and the dominant biome is the
    /// mode of the cell biomes with ties broken by declaration order.
    pub open spec fn spec_chunk_ok(self, c: (int, int), chunk: Chunk) -> bool {
        &&& chunk.cells@.len() == self.chunk_size * self.chunk_size
        &&& forall|j: int|
            0 <= j < chunk.cells@.len() ==> #[trigger] chunk.cells@[j] == self.spec_cell_at(c, j)
        &&& forall|b: crate::biome::BiomeType|
            #[trigger] crate::chunk::spec_biome_count(chunk.cells@, b)
                <= crate::chunk::spec_biome_count(chunk.cells@, chunk.dominant_biome)
        &&& forall|b: crate::biome::BiomeType|
            #[trigger] crate::chunk::spec_biome_count(chunk.cells@, b)
                == crate::chunk::spec_biome_count(chunk.cells@, chunk.dominant_biome)
                ==> crate::chunk::spec_biome_index(chunk.dominant_biome)
                <= crate::chunk::spec_biome_index(b)
    }

    /// The generator is sound, the chunk size sits in range, and every
    /// memoized entry holds exactly what generation would produce.
    pub open spec fn wf(self) -> bool {
        &&& self.generator.wf()
        &&& 1 <= self.chunk_size <= MAX_CHUNK_SIZE
        &&& FIELD_ONE <= self.generator.spec_max_zoom()
        &&& forall|cx: int, cy: int|
            self.spec_valid_chunk_coord((cx, cy)) && #[trigger] self.chunks@.contains_key(
                spec_encode((cx, cy)) as u64,
            ) ==> self.spec_chunk_ok((cx, cy), self.chunks@[spec_encode((cx, cy)) as u64])
        &&& forall|px: int, py: int|
            valid_coord((px, py)) && #[trigger] self.cells@.contains_key(
                spec_encode((px, py)) as u64,
            ) ==> self.cells@[spec_encode((px, py)) as u64].biome == spec_intermediate_cell(
                self.generator,
                (px, py),
                FIELD_ONE as int,
            ).biome
    }

    /// Build a map over a generator with the given fixed-point global
    /// scale, chunk size and optional seed. Errs with
    /// `InvalidChunkSize` exactly when the chunk size is out of range,
    /// and with `InvalidScale` exactly when the scale is.
    pub fn new(global_scale: i64, chunk_size: i64, seed: Option<u64>) -> (r: Result<
        Self,
        WorldGenError,
    >)
        ensures
            match r {
                Ok(m) => {
                    &&& 1 <= chunk_size <= MAX_CHUNK_SIZE
                    &&& MIN_GLOBAL_SCALE <= global_scale <= MAX_GLOBAL_SCALE
                    &&& m.wf()
                    &&& m.chunk_size == chunk_size
                    &&& m.global_scale == global_scale
                    &&& spec_built_from(m.generator, global_scale as int, m.generator.seed)
                    &&& (seed matches Some(sv) ==> m.generator.seed == sv)
                    &&& m.cells@ == Map::<u64, ConcreteCell>::empty()
                    &&& m.chunks@ == Map::<u64, Chunk>::empty()
                },
                Err(WorldGenError::InvalidChunkSize) => !(1 <= chunk_size <= MAX_CHUNK_SIZE),
                Err(WorldGenError::InvalidScale) => {
                    &&& 1 <= chunk_size <= MAX_CHUNK_SIZE
                    &&& !(MIN_GLOBAL_SCALE <= global_scale <= MAX_GLOBAL_SCALE)
                },
                Err(_) => false,
            },
    {
        if !(1 <= chunk_size && chunk_size <= MAX_CHUNK_SIZE) {
            return Err(WorldGenError::InvalidChunkSize);
        }
        let generator = match WorldGen::new(global_scale, seed) {
            Ok(g) => g,
            Err(e) => { return Err(e) },
        };
        let m = WorldMap {
            generator,
            cells: HashMap::new(),
            chunks: HashMap::new(),
            chunk_size,
            global_scale,
        };
        Ok(m)
    }

    /// The seed this map's world is derived from.
    pub fn seed(&self) -> (r: u64)
        ensures
            r == self.generator.seed,
    {
        self.generator.seed
    }

    /// The chunk coordinate of a world coordinate: floor division by
    /// the chunk size, correct also for negative coordinates.
    pub fn chunk_coords_from_world_coords(&self, position: (i64, i64)) -> (r: (i64, i64))
        requires
            self.wf(),
            -1_000_000_000 <= position.0 <= 1_000_000_000,
            -1_000_000_000 <= position.1 <= 1_000_000_000,
        ensures
            r.0 == position.0 as int / self.chunk_size as int,
            r.1 == position.1 as int / self.chunk_size as int,
    {
        (floor_div(position.0, self.chunk_size), floor_div(position.1, self.chunk_size))
    }

    /// The number of concrete cells generated so far.
    pub fn generated_cell_count(&self) -> (r: usize)
        ensures
            r == self.cells@.len(),
    {
        self.cells.len()
    }

    /// The number of chunks generated so far.
    pub fn generated_chunk_count(&self) -> (r: usize)
        ensures
            r == self.chunks@.len(),
    {
        self.chunks.len()
    }

    /// Whether the concrete cell at `pos` has been generated already.
    pub fn is_generated(&self, pos: (i64, i64)) -> (r: bool)
        requires
            valid_coord((pos.0 as int, pos.1 as int)),
        ensures
            r == self.cells@.contains_key(spec_encode((pos.0 as int, pos.1 as int)) as u64),
    {
        self.cells.contains_key(&encode_key(pos.0, pos.1))
    }

    /// Sample a cell at an arbitrary zoom, without caching.
    pub fn get_intermediate_cell(&self, pos: (i64, i64), zoom: i64) -> (r: IntermediateCell)
        requires
            self.wf(),
            -1_000_000 <= pos.0 <= 1_000_000,
            -1_000_000 <= pos.1 <= 1_000_000,
            FIELD_ONE <= zoom <= self.generator.spec_max_zoom(),
        ensures
            r == spec_intermediate_cell(self.generator, (pos.0 as int, pos.1 as int), zoom as int),
    {
        self.generator.generate_intermediate_cell(pos, zoom)
    }

    /// Fetch or generate the chunk at a chunk coordinate. On a miss,
    /// every cell of the chunk is generated and the dominant biome
    /// computed, and the result is memoized; on a hit nothing changes:
    /// the cached content is returned as is and the generated count
    /// stays where it was.
    pub fn get_chunk(&mut self, chunk_pos: (i64, i64)) -> (r: Chunk)
        requires
            old(self).wf(),
            old(self).spec_valid_chunk_coord((chunk_pos.0 as int, chunk_pos.1 as int)),
        ensures
            final(self).wf(),
            final(self).generator == old(self).generator,
            final(self).cells == old(self).cells,
            final(self).chunk_size == old(self).chunk_size,
            final(self).global_scale == old(self).global_scale,
            old(self).spec_chunk_ok((chunk_pos.0 as int, chunk_pos.1 as int), r),
            old(self).chunks@.contains_key(
                spec_encode((chunk_pos.0 as int, chunk_pos.1 as int)) as u64,
            ) ==> *final(self) == *old(self),
            final(self).chunks@.contains_key(
                spec_encode((chunk_pos.0 as int, chunk_pos.1 as int)) as u64,
            ),
            final(self).chunks@.dom() == old(self).chunks@.dom().insert(
                spec_encode((chunk_pos.0 as int, chunk_pos.1 as int)) as u64,
            ),
    {
        let key = encode_key(chunk_pos.0, chunk_pos.1);
        match self.chunks.get(&key) {
            Some(cached) => {
                let r = copy_chunk(cached);
                proof {
                    let cp = (chunk_pos.0 as int, chunk_pos.1 as int);
                    assert(old(self).chunks@.contains_key(spec_encode(cp) as u64));
                    assert(old(self).spec_chunk_ok(cp, old(self).chunks@[spec_encode(cp) as u64]));
                    assert(*cached == old(self).chunks@[spec_encode(cp) as u64]);
                    assert(self.chunks@.dom() =~= old(self).chunks@.dom().insert(key));
                }
                r
            },
            None => {
                let cs = self.chunk_size;
                proof {
                    assert(-768_000 <= chunk_pos.0 * cs <= 768_000 && -768_000 <= chunk_pos.1 * cs
                        <= 768_000 && 1 <= cs * cs <= 65_536) by (nonlinear_arith)
                        requires
                            -MAX_CHUNK_COORD <= chunk_pos.0 <= MAX_CHUNK_COORD,
                            -MAX_CHUNK_COORD <= chunk_pos.1 <= MAX_CHUNK_COORD,
                            1 <= cs <= MAX_CHUNK_SIZE,
                            MAX_CHUNK_COORD == 3000,
                            MAX_CHUNK_SIZE == 256,
                    ;
                }
                let bx = chunk_pos.0 * cs;
                let by = chunk_pos.1 * cs;
                let total = (cs * cs) as usize;
                let mut cells: Vec<IntermediateCell> = Vec::new();
                let mut j: usize = 0;
                while j < total
                    invariant
                        self.wf(),
                        cs == self.chunk_size,
                        1 <= cs <= MAX_CHUNK_SIZE,
                        bx == chunk_pos.0 * cs,
                        by == chunk_pos.1 * cs,
                        -MAX_CHUNK_COORD <= chunk_pos.0 <= MAX_CHUNK_COORD,
                        -MAX_CHUNK_COORD <= chunk_pos.1 <= MAX_CHUNK_COORD,
                        -768_000 <= bx <= 768_000,
                        -768_000 <= by <= 768_000,
                        total == cs * cs,
                        total <= 65_536,
                        j <= total,
                        cells@.len() == j,
                        forall|m: int|
                            0 <= m < j ==> #[trigger] cells@[m] == self.spec_cell_at(
                                (chunk_pos.0 as int, chunk_pos.1 as int),
                                m,
                            ),
                    decreases total - j,
                {
                    let jj = j as i64;
                    proof {
                        assert(0 <= jj % cs < cs && 0 <= jj / cs < cs) by (nonlinear_arith)
                            requires
                                0 <= jj,
                                jj < cs * cs,
                                1 <= cs,
                        ;
                    }
                    let dx = jj % cs;
                    let dy = jj / cs;
                    let cell = self.generator.generate_intermediate_cell(
                        (bx + dx, by + dy),
                        FIELD_ONE,
                    );
                    cells.push(cell);
                    j = j + 1;
                }
                let dominant = dominant_biome(&cells);
                let chunk = Chunk { cells, dominant_biome: dominant };
                let copy = copy_chunk(&chunk);
                self.chunks.insert(key, copy);
                proof {
                    assert forall|cx: int, cy: int|
                        self.spec_valid_chunk_coord((cx, cy))
                            && #[trigger] self.chunks@.contains_key(spec_encode((cx, cy)) as u64)
                        implies self.spec_chunk_ok(
                        (cx, cy),
                        self.chunks@[spec_encode((cx, cy)) as u64],
                    ) by {
                        if spec_encode((cx, cy)) as u64 == key {
                            crate::occupancy::lemma_encode_injective(
                                (cx, cy),
                                (chunk_pos.0 as int, chunk_pos.1 as int),
                            );
                        }
                    }
                    assert(self.chunks@.dom() =~= old(self).chunks@.dom().insert(key));
                }
                chunk
            },
        }
    }

    /// Fetch or generate the cell at a world coordinate, through its
    /// chunk. Pure in the generator state: the result is pinned by
    /// `spec_intermediate_cell`.
    pub fn get_cell(&mut self, pos: (i64, i64)) -> (r: IntermediateCell)
        requires
            old(self).wf(),
            old(self).spec_valid_cell_pos((pos.0 as int, pos.1 as int)),
        ensures
            final(self).wf(),
            final(self).generator == old(self).generator,
            final(self).cells == old(self).cells,
            final(self).chunk_size == old(self).chunk_size,
            final(self).global_scale == old(self).global_scale,
            r == spec_intermediate_cell(
                old(self).generator,
                (pos.0 as int, pos.1 as int),
                FIELD_ONE as int,
            ),
    {
        let cs = self.chunk_size;
        let cp = self.chunk_coords_from_world_coords(pos);
        proof {
            lemma_chunk_coord_bounds(pos.0 as int, cs as int);
            lemma_chunk_coord_bounds(pos.1 as int, cs as int);
            assert(-MAX_CHUNK_COORD <= cp.0 <= MAX_CHUNK_COORD && -MAX_CHUNK_COORD <= cp.1
                <= MAX_CHUNK_COORD) by (nonlinear_arith)
                requires
                    cs * cp.0 <= pos.0 < cs * cp.0 + cs,
                    cs * cp.1 <= pos.1 < cs * cp.1 + cs,
                    -MAX_CHUNK_COORD * cs <= pos.0 < MAX_CHUNK_COORD * cs,
                    -MAX_CHUNK_COORD * cs <= pos.1 < MAX_CHUNK_COORD * cs,
                    1 <= cs,
            ;
        }
        let chunk = self.get_chunk(cp);
        proof {
            assert(-768_000_000 <= cp.0 * cs <= 768_000_000 && -768_000_000 <= cp.1 * cs
                <= 768_000_000) by (nonlinear_arith)
                requires
                    -MAX_CHUNK_COORD <= cp.0 <= MAX_CHUNK_COORD,
                    -MAX_CHUNK_COORD <= cp.1 <= MAX_CHUNK_COORD,
                    1 <= cs <= MAX_CHUNK_SIZE,
                    MAX_CHUNK_COORD == 3000,
                    MAX_CHUNK_SIZE == 256,
            ;
        }
        let dx = pos.0 - cp.0 * cs;
        let dy = pos.1 - cp.1 * cs;
        proof {
            assert(0 <= dy * cs + dx < cs * cs && (dy * cs + dx) % (cs as int) == dx && (dy * cs
                + dx) / (cs as int) == dy) by (nonlinear_arith)
                requires
                    0 <= dx < cs,
                    0 <= dy < cs,
                    1 <= cs,
            ;
            assert(cs * cs <= 65_536) by (nonlinear_arith)
                requires
                    1 <= cs <= 256,
            ;
        }
        let j = (dy * cs + dx) as usize;
        chunk.cells[j]
    }

    /// Fetch or generate the concrete cell (biome plus city overlay) at
    /// a world coordinate, memoizing it. On a hit nothing changes and
    /// the cached cell is returned; the biome is pinned by
    /// `spec_intermediate_cell` either way. Errs only when city
    /// generation exhausts its retries.
    pub fn get_concrete_cell(&mut self, pos: (i64, i64)) -> (r: Result<
        ConcreteCell,
        WorldGenError,
    >)
        requires
            old(self).wf(),
            -1_000_000 <= pos.0 <= 1_000_000,
            -1_000_000 <= pos.1 <= 1_000_000,
        ensures
            final(self).wf(),
            final(self).chunk_size == old(self).chunk_size,
            final(self).global_scale == old(self).global_scale,
            final(self).chunks == old(self).chunks,
            old(self).cells@.contains_key(spec_encode((pos.0 as int, pos.1 as int)) as u64)
                ==> *final(self) == *old(self) && (r matches Ok(c) && c == old(self).cells@[
                spec_encode((pos.0 as int, pos.1 as int)) as u64]),
            old(self).generator.cities@.contains_key(
                spec_encode(
                    (pos.0 as int / (old(self).chunk_size as int), pos.1 as int / (old(
                        self,
                    ).chunk_size as int)),
                ) as u64,
            ) ==> r matches Ok(_),
            r matches Ok(c) ==> c.biome == spec_intermediate_cell(
                old(self).generator,
                (pos.0 as int, pos.1 as int),
                FIELD_ONE as int,
            ).biome,
            r matches Ok(c) ==> final(self).cells@.contains_key(
                spec_encode((pos.0 as int, pos.1 as int)) as u64,
            ),
            !old(self).cells@.contains_key(spec_encode((pos.0 as int, pos.1 as int)) as u64) && (
            r matches Ok(c)) ==> {
                &&& final(self).cells@ == old(self).cells@.insert(
                    spec_encode((pos.0 as int, pos.1 as int)) as u64,
                    r->Ok_0,
                )
                &&& final(self).cells@.len() == old(self).cells@.len() + 1
            },
            !old(self).cells@.contains_key(spec_encode((pos.0 as int, pos.1 as int)) as u64) && (
            r matches Ok(c)) ==> {
                let ck = spec_encode(
                    (pos.0 as int / (old(self).chunk_size as int), pos.1 as int / (old(
                        self,
                    ).chunk_size as int)),
                ) as u64;
                let p = (pos.0 as int, pos.1 as int);
                &&& final(self).generator.cities@.contains_key(ck)
                &&& match (r->Ok_0).building_part {
                    Some(bp) => !bp.is_door && final(self).generator.cities@[ck]@.contains_key(p)
                        && final(self).generator.cities@[ck]@[p] == bp.element,
                    None => !final(self).generator.cities@[ck]@.contains_key(p),
                }
            },
            r matches Err(e) ==> e == WorldGenError::PlacementExhausted,
    {
        let key = encode_key(pos.0, pos.1);
        match self.cells.get(&key) {
            Some(cached) => {
                proof {
                    let p = (pos.0 as int, pos.1 as int);
                    assert(valid_coord(p));
                    assert(old(self).cells@.contains_key(spec_encode(p) as u64));
                    assert(old(self).cells@[spec_encode(p) as u64].biome
                        == spec_intermediate_cell(
                        old(self).generator,
                        p,
                        FIELD_ONE as int,
                    ).biome);
                }
                Ok(*cached)
            },
            None => {
                let cp = self.chunk_coords_from_world_coords(pos);
                proof {
                    lemma_chunk_coord_bounds(pos.0 as int, self.chunk_size as int);
                    lemma_chunk_coord_bounds(pos.1 as int, self.chunk_size as int);
                    let cs = self.chunk_size as int;
                    assert(-1_000_000 <= cp.0 <= 1_000_000 && -1_000_000 <= cp.1 <= 1_000_000)
                        by (nonlinear_arith)
                        requires
                            cs * cp.0 <= pos.0 < cs * cp.0 + cs,
                            cs * cp.1 <= pos.1 < cs * cp.1 + cs,
                            -1_000_000 <= pos.0 <= 1_000_000,
                            -1_000_000 <= pos.1 <= 1_000_000,
                            1 <= cs,
                    ;
                }
                let cell = match self.generator.generate_concrete_cell(pos, cp) {
                    Ok(c) => c,
                    Err(e) => { return Err(e) },
                };
                self.cells.insert(key, cell);
                proof {
                    assert(old(self).cells@.dom().finite());
                    vstd::set::axiom_set_insert_len(old(self).cells@.dom(), key);
                    assert(self.cells@.dom() =~= old(self).cells@.dom().insert(key));
                    assert forall|px: int, py: int|
                        valid_coord((px, py)) && #[trigger] self.cells@.contains_key(
                            spec_encode((px, py)) as u64,
                        ) implies self.cells@[spec_encode((px, py)) as u64].biome
                        == spec_intermediate_cell(
                        self.generator,
                        (px, py),
                        FIELD_ONE as int,
                    ).biome by {
                        if spec_encode((px, py)) as u64 == key {
                            crate::occupancy::lemma_encode_injective(
                                (px, py),
                                (pos.0 as int, pos.1 as int),
                            );
                        }
                    }
                }
                Ok(cell)
            },
        }
    }

    /// Reconfigure the generator for a new global scale and clear every
    /// cache: cell content depends on the scale, so previously returned
    /// cells are stale after this call and everything is regenerated on
    /// the next request. The seed is kept, so the same world reappears
    /// when the old scale is restored. Errs, leaving the map untouched,
    /// exactly when the new scale is out of range.
    pub fn update_scale(&mut self, new_scale: i64) -> (r: Result<(), WorldGenError>)
        requires
            old(self).wf(),
        ensures
            final(self).wf(),
            match r {
                Ok(()) => {
                    &&& MIN_GLOBAL_SCALE <= new_scale <= MAX_GLOBAL_SCALE
                    &&& final(self).cells@ == Map::<u64, ConcreteCell>::empty()
                    &&& final(self).chunks@ == Map::<u64, Chunk>::empty()
                    &&& final(self).global_scale == new_scale
                    &&& final(self).chunk_size == old(self).chunk_size
                    &&& final(self).generator.seed == old(self).generator.seed
                    &&& spec_built_from(
                        final(self).generator,
                        new_scale as int,
                        old(self).generator.seed,
                    )
                },
                Err(e) => {
                    &&& e == WorldGenError::InvalidScale
                    &&& !(MIN_GLOBAL_SCALE <= new_scale <= MAX_GLOBAL_SCALE)
                    &&& *final(self) == *old(self)
                },
            },
    {
        let seed = self.generator.seed;
        let generator = match WorldGen::new(new_scale, Some(seed)) {
            Ok(g) => g,
            Err(e) => { return Err(e) },
        };
        self.generator = generator;
        self.cells = HashMap::new();
        self.chunks = HashMap::new();
        self.global_scale = new_scale;
        Ok(())
    }
}

} // verus!
