//! Procedural city generation: non-overlapping rectangular buildings
//! connected by roads found with an informed graph search.
//!
//! The generator first places a few important buildings at a coarse
//! spatial scale and links every pair of them, then rescales the result
//! and fills in regular buildings, each connected to its nearest
//! important building. A shared occupancy map records walls, interiors
//! and roads; doors are kept free so paths can pass through them.
//!
//! Invariants carried by `CityGenerator::wf`: building footprints
//! inflated by the minimum clearance never intersect, a door cell is
//! never marked as wall or interior, every road coordinate lies within
//! the generator's current bounds, consecutive road cells are axis
//! neighbors, and a non-empty road starts at some building's door.
use vstd::prelude::*;

use pathfinding::prelude::astar;
use rand_chacha::ChaCha8Rng;

use crate::concrete_cell::BuildingElement;
use crate::occupancy::valid_coord;
use crate::occupancy::Occupancy;
use crate::rng::gen_bool;
use crate::rng::gen_range_i64;
use crate::rng::rng_from_seed;
use crate::WorldGenError;

verus! {

/// Margin added around the outermost buildings when the city bounds
/// grow.
pub const CITY_BOUNDS_OFFSET: i64 = 20;

/// Clearance kept between any two building footprints.
pub const MIN_CLEARANCE: i64 = 3;

/// Clearance demanded of a regular building against everything placed
/// before it.
pub const REGULAR_CLEARANCE: i64 = 8;

/// How often a placement is retried before generation reports
/// exhaustion.
pub const MAX_PLACEMENT_ATTEMPTS: u64 = 200;

/// Largest building side accepted; configured ranges stop at half of
/// it, so that rescaling stays within it.
pub const MAX_BUILDING_DIM: i64 = 20_000;

/// Largest coordinate magnitude a building may reach; candidates beyond
/// it are rejected like overlapping ones.
pub const CITY_COORD_LIMIT: i64 = 200_000_000;

/// Bound on the city bounds themselves, slightly wider than the
/// coordinate limit.
pub const CITY_BOUNDS_LIMIT: i64 = 300_000_000;

/// Cost of stepping onto an existing road cell.
pub const ROAD_STEP_COST: i64 = 10;

/// Cost of stepping onto an empty cell; roads prefer to reuse existing
/// roads.
pub const EMPTY_STEP_COST: i64 = 50;

/// What a generated cell is used for by consumers of the overlay.
#[derive(Clone, Copy, Debug, PartialEq, Eq, Structural)]
pub enum CellType {
    Road,
    Building,
}

/// A building of the city.
#[derive(Clone, Copy, Debug, PartialEq, Eq)]
pub struct Building {
    /// Coordinates of the door, on the building's outline.
    pub door: (i64, i64),
    /// x coordinate of the corner with the smallest coordinates.
    pub x: i64,
    /// y coordinate of the corner with the smallest coordinates.
    pub y: i64,
    /// Width of the building.
    pub width: i64,
    /// Height of the building.
    pub height: i64,
    /// Whether the building is an important one.
    pub is_important: bool,
    /// Unique identifier: the building's position in the list.
    pub id: usize,
}

/// Two footprints, inflated by `off`, intersect.
pub open spec fn spec_overlaps(a: Building, b: Building, off: int) -> bool {
    &&& a.x - off < b.x + b.width
    &&& a.x + a.width + off > b.x
    &&& a.y - off < b.y + b.height
    &&& a.y + a.height + off > b.y
}

/// `p` lies in the building's closed footprint, walls included.
pub open spec fn spec_contains(b: Building, p: (int, int)) -> bool {
    b.x <= p.0 <= b.x + b.width && b.y <= p.1 <= b.y + b.height
}

/// The door sits on the building's outline.
pub open spec fn spec_door_on_wall(b: Building) -> bool {
    ||| ((b.door.1 == b.y || b.door.1 == b.y + b.height) && b.x <= b.door.0 <= b.x + b.width)
    ||| ((b.door.0 == b.x || b.door.0 == b.x + b.width) && b.y <= b.door.1 <= b.y + b.height)
}

/// Geometrically sound building: positive sides, bounded box, door on
/// the outline.
pub open spec fn spec_wf_building(b: Building) -> bool {
    &&& 1 <= b.width <= MAX_BUILDING_DIM
    &&& 1 <= b.height <= MAX_BUILDING_DIM
    &&& -CITY_COORD_LIMIT <= b.x && b.x + b.width <= CITY_COORD_LIMIT
    &&& -CITY_COORD_LIMIT <= b.y && b.y + b.height <= CITY_COORD_LIMIT
    &&& spec_door_on_wall(b)
}

impl Building {
    /// Whether this building's footprint, inflated by `offset`,
    /// intersects the other's.
    pub fn overlaps(&self, other: &Building, offset: i64) -> (r: bool)
        requires
            spec_wf_building(*self),
            spec_wf_building(*other),
            0 <= offset <= 1000,
        ensures
            r == spec_overlaps(*self, *other, offset as int),
    {
        self.x - offset < other.x + other.width && self.x + self.width + offset > other.x
            && self.y - offset < other.y + other.height && self.y + self.height + offset > other.y
    }

    /// Whether a point lies inside the building, walls included.
    pub fn contains(&self, pos: (i64, i64)) -> (r: bool)
        requires
            spec_wf_building(*self),
        ensures
            r == spec_contains(*self, (pos.0 as int, pos.1 as int)),
    {
        pos.0 >= self.x && pos.0 <= self.x + self.width && pos.1 >= self.y && pos.1 <= self.y
            + self.height
    }

    /// A building with the given box and id and a door drawn on a random
    /// side of its outline.
    fn with_random_door(rng: &mut ChaCha8Rng, x: i64, y: i64, width: i64, height: i64, id: usize)
        -> (r: Building)
        requires
            1 <= width <= MAX_BUILDING_DIM,
            1 <= height <= MAX_BUILDING_DIM,
            -CITY_COORD_LIMIT <= x && x + width <= CITY_COORD_LIMIT,
            -CITY_COORD_LIMIT <= y && y + height <= CITY_COORD_LIMIT,
        ensures
            spec_wf_building(r),
            r.x == x && r.y == y && r.width == width && r.height == height,
            !r.is_important,
            r.id == id,
    {
        let door: (i64, i64) = if gen_bool(rng) {
            // northern or southern side
            if gen_bool(rng) {
                (gen_range_i64(rng, x, x + width), y)
            } else {
                (gen_range_i64(rng, x, x + width), y + height)
            }
        } else {
            // eastern or western side
            if gen_bool(rng) {
                (x + width, gen_range_i64(rng, y, y + height))
            } else {
                (x, gen_range_i64(rng, y, y + height))
            }
        };
        Building { is_important: false, door, x, y, width, height, id }
    }

    /// The same building, marked important.
    pub fn make_important(self) -> (r: Building)
        ensures
            r == (Building { is_important: true, ..self }),
    {
        Building { is_important: true, ..self }
    }
}

/// The successor list contains `q` with cost `c`.
pub open spec fn spec_lists_successor(r: Seq<((i64, i64), i64)>, q: (int, int), c: int) -> bool {
    exists|k: int|
        0 <= k < r.len() && (#[trigger] r[k]).0.0 == q.0 && r[k].0.1 == q.1 && r[k].1 == c
}

/// A step of one cell along an axis.
pub open spec fn spec_adjacent(p: (int, int), q: (int, int)) -> bool {
    ||| (q.0 == p.0 && (q.1 == p.1 + 1 || q.1 == p.1 - 1))
    ||| (q.1 == p.1 && (q.0 == p.0 + 1 || q.0 == p.0 - 1))
}

/// Footprints kept one cell apart are disjoint even as closed boxes.
proof fn lemma_clearance_separates(a: Building, b: Building, p: (int, int))
    requires
        !spec_overlaps(a, b, 1),
        spec_contains(a, p),
    ensures
        !spec_contains(b, p),
{
}

/// Not overlapping at a wider clearance implies not overlapping at a
/// narrower one.
proof fn lemma_clearance_monotone(a: Building, b: Building, off1: int, off2: int)
    requires
        off1 <= off2,
        !spec_overlaps(a, b, off2),
    ensures
        !spec_overlaps(a, b, off1),
{
}


/// Which building element stands at `p` of building `b`: one of the four
/// corners, a wall, or the interior.
pub open spec fn spec_cell_kind(b: Building, p: (int, int)) -> BuildingElement
    recommends
        spec_contains(b, p),
{
    if p.0 == b.x && p.1 == b.y {
        BuildingElement::BuildingBottomLeft
    } else if p.0 == b.x + b.width && p.1 == b.y {
        BuildingElement::BuildingBottomRight
    } else if p.0 == b.x && p.1 == b.y + b.height {
        BuildingElement::BuildingTopLeft
    } else if p.0 == b.x + b.width && p.1 == b.y + b.height {
        BuildingElement::BuildingTopRight
    } else if p.1 == b.y || p.1 == b.y + b.height {
        BuildingElement::BuildingHorizontal
    } else if p.0 == b.x || p.0 == b.x + b.width {
        BuildingElement::BuildingVertical
    } else {
        BuildingElement::BuildingInterior
    }
}

fn cell_kind(b: &Building, px: i64, py: i64) -> (r: BuildingElement)
    requires
        spec_wf_building(*b),
        spec_contains(*b, (px as int, py as int)),
    ensures
        r == spec_cell_kind(*b, (px as int, py as int)),
{
    if px == b.x && py == b.y {
        BuildingElement::BuildingBottomLeft
    } else if px == b.x + b.width && py == b.y {
        BuildingElement::BuildingBottomRight
    } else if px == b.x && py == b.y + b.height {
        BuildingElement::BuildingTopLeft
    } else if px == b.x + b.width && py == b.y + b.height {
        BuildingElement::BuildingTopRight
    } else if py == b.y || py == b.y + b.height {
        BuildingElement::BuildingHorizontal
    } else if px == b.x || px == b.x + b.width {
        BuildingElement::BuildingVertical
    } else {
        BuildingElement::BuildingInterior
    }
}

/// Mark one column of a building's footprint in the occupancy map.
#[verifier::rlimit(60)]
fn register_column(occ: &mut Occupancy, b: &Building, px: i64)
    requires
        spec_wf_building(*b),
        b.x <= px <= b.x + b.width,
    ensures
        forall|x: int, y: int|
            x == px && b.y <= y <= b.y + b.height ==> #[trigger] final(occ)@.contains_key((x, y)),
        forall|x: int, y: int|
            x == px && b.y <= y <= b.y + b.height ==> #[trigger] final(occ)@[(x, y)]
                == spec_cell_kind(*b, (x, y)),
        forall|x: int, y: int|
            !(x == px && b.y <= y <= b.y + b.height) ==> #[trigger] final(occ)@.contains_key(
                (x, y),
            ) == old(occ)@.contains_key((x, y)),
        forall|x: int, y: int|
            !(x == px && b.y <= y <= b.y + b.height) && old(occ)@.contains_key((x, y))
                ==> #[trigger] final(occ)@[(x, y)] == old(occ)@[(x, y)],
{
    let mut yo: i64 = 0;
    while yo <= b.height
        invariant
            spec_wf_building(*b),
            b.x <= px <= b.x + b.width,
            0 <= yo <= b.height + 1,
            forall|x: int, y: int|
                x == px && b.y <= y < b.y + yo ==> #[trigger] occ@.contains_key((x, y)),
            forall|x: int, y: int|
                x == px && b.y <= y < b.y + yo ==> #[trigger] occ@[(x, y)] == spec_cell_kind(
                    *b,
                    (x, y),
                ),
            forall|x: int, y: int|
                !(x == px && b.y <= y < b.y + yo) ==> #[trigger] occ@.contains_key((x, y))
                    == old(occ)@.contains_key((x, y)),
            forall|x: int, y: int|
                !(x == px && b.y <= y < b.y + yo) && old(occ)@.contains_key((x, y))
                    ==> #[trigger] occ@[(x, y)] == old(occ)@[(x, y)],
        decreases b.height + 1 - yo,
    {
        let py = b.y + yo;
        let e = cell_kind(b, px, py);
        occ.set(px, py, e);
        yo = yo + 1;
    }
}

impl CityGenerator {
    /// Mark a building's walls, corners and interior in the occupancy
    /// map, then free its door cell so paths can pass through.
    fn register_building(&mut self, b: Building)
        requires
            spec_wf_building(b),
        ensures
            *final(self) == (CityGenerator { is_something: final(self).is_something, ..*old(self) }),
            forall|x: int, y: int|
                spec_contains(b, (x, y)) && !((x, y) == (b.door.0 as int, b.door.1 as int))
                    ==> #[trigger] final(self).is_something@.contains_key((x, y)),
            forall|x: int, y: int|
                spec_contains(b, (x, y)) && !((x, y) == (b.door.0 as int, b.door.1 as int))
                    ==> #[trigger] final(self).is_something@[(x, y)] == spec_cell_kind(b, (x, y)),
            !final(self).is_something@.contains_key((b.door.0 as int, b.door.1 as int)),
            forall|x: int, y: int|
                !spec_contains(b, (x, y)) ==> #[trigger] final(self).is_something@.contains_key(
                    (x, y),
                ) == old(self).is_something@.contains_key((x, y)),
            forall|x: int, y: int|
                !spec_contains(b, (x, y)) && old(self).is_something@.contains_key((x, y))
                    ==> #[trigger] final(self).is_something@[(x, y)]
                    == old(self).is_something@[(x, y)],
    {
        let mut xo: i64 = 0;
        while xo <= b.width
            invariant
                spec_wf_building(b),
                0 <= xo <= b.width + 1,
                forall|x: int, y: int|
                    b.x <= x < b.x + xo && b.y <= y <= b.y + b.height
                        ==> #[trigger] self.is_something@.contains_key((x, y)),
                forall|x: int, y: int|
                    b.x <= x < b.x + xo && b.y <= y <= b.y + b.height
                        ==> #[trigger] self.is_something@[(x, y)] == spec_cell_kind(b, (x, y)),
                forall|x: int, y: int|
                    !(b.x <= x < b.x + xo && b.y <= y <= b.y + b.height)
                        ==> #[trigger] self.is_something@.contains_key((x, y))
                        == old(self).is_something@.contains_key((x, y)),
                forall|x: int, y: int|
                    !(b.x <= x < b.x + xo && b.y <= y <= b.y + b.height)
                        && old(self).is_something@.contains_key((x, y))
                        ==> #[trigger] self.is_something@[(x, y)]
                        == old(self).is_something@[(x, y)],
                *self == (CityGenerator { is_something: self.is_something, ..*old(self) }),
            decreases b.width + 1 - xo,
        {
            register_column(&mut self.is_something, &b, b.x + xo);
            xo = xo + 1;
        }
        self.is_something.unset(b.door.0, b.door.1);
    }
}

/// Random city generator.
pub struct CityGenerator {
    /// Source of all randomness; seeded once at construction.
    pub rng: ChaCha8Rng,
    /// Buildings of the city, in placement order; a building's id is its
    /// index here.
    pub buildings: Vec<Building>,
    /// Corner coordinates of the important buildings.
    pub important_buildings: Vec<(i64, i64)>,
    /// Roads of the city; an empty entry records a failed search.
    pub roads: Vec<Vec<(i64, i64)>>,
    /// x coordinate of the left city bound.
    pub min_x: i64,
    /// y coordinate of the top city bound.
    pub min_y: i64,
    /// x coordinate of the right city bound (exclusive).
    pub max_x: i64,
    /// y coordinate of the bottom city bound (exclusive).
    pub max_y: i64,
    /// What, if anything, occupies each coordinate.
    pub is_something: Occupancy,
    /// Smallest and largest building width.
    pub width_lo: i64,
    pub width_hi: i64,
    /// Smallest and largest building height.
    pub height_lo: i64,
    pub height_hi: i64,
    /// Smallest and largest distance between a building and the one it
    /// spawned from.
    pub distance_lo: i64,
    pub distance_hi: i64,
    /// Largest distance between important buildings.
    pub important_buildings_max_distance: i64,
}

impl CityGenerator {
    /// The configured ranges sit within their accepted bounds.
    pub open spec fn params_ok(self) -> bool {
        &&& 1 <= self.width_lo < self.width_hi <= 10_000
        &&& 1 <= self.height_lo < self.height_hi <= 10_000
        &&& 1 <= self.distance_lo < self.distance_hi <= 100_000
        &&& 2 <= self.important_buildings_max_distance <= 1_000_000
    }

    /// The current city bounds are bounded and ordered.
    pub open spec fn bounds_ok(self) -> bool {
        self.buildings@.len() > 0 ==> {
            &&& -CITY_BOUNDS_LIMIT <= self.min_x <= self.max_x <= CITY_BOUNDS_LIMIT
            &&& -CITY_BOUNDS_LIMIT <= self.min_y <= self.max_y <= CITY_BOUNDS_LIMIT
        }
    }

    /// `q` lies within the generator's current bounds.
    pub open spec fn in_bounds(self, q: (int, int)) -> bool {
        self.min_x <= q.0 < self.max_x && self.min_y <= q.1 < self.max_y
    }

    /// `q` can be stepped onto: it is free, or already a road.
    pub open spec fn spec_traversable(self, q: (int, int)) -> bool {
        !self.is_something@.contains_key(q) || self.is_something@[q] == BuildingElement::Road
    }

    /// The cost of stepping onto a traversable cell: cheap on an
    /// existing road, dearer on free ground.
    pub open spec fn spec_step_cost(self, q: (int, int)) -> int {
        if self.is_something@.contains_key(q) {
            ROAD_STEP_COST as int
        } else {
            EMPTY_STEP_COST as int
        }
    }

    /// The search's goal: an existing road, or the target's footprint.
    pub open spec fn spec_goal(self, q: (int, int), target: Building) -> bool {
        ||| (self.is_something@.contains_key(q) && self.is_something@[q]
            == BuildingElement::Road)
        ||| spec_contains(target, q)
    }

    /// A valid road: within bounds, unit axis steps, starting at some
    /// building's door.
    pub open spec fn spec_road_ok(self, road: Seq<(i64, i64)>) -> bool {
        road.len() > 0 ==> {
            &&& exists|i: int|
                0 <= i < self.buildings@.len() && road[0]
                    == (#[trigger] self.buildings@[i]).door
            &&& forall|m: int|
                0 <= m < road.len() ==> self.in_bounds(
                    (#[trigger] road[m].0 as int, road[m].1 as int),
                )
            &&& forall|m: int|
                0 <= m < road.len() - 1 ==> spec_adjacent(
                    (#[trigger] road[m].0 as int, road[m].1 as int),
                    (road[m + 1].0 as int, road[m + 1].1 as int),
                )
        }
    }

    /// The generator's whole invariant. It carries the guarantees the
    /// library makes of a generated city: buildings keep their
    /// clearance, doors are never walled over, roads are valid.
    pub open spec fn wf(self) -> bool {
        &&& self.params_ok()
        &&& self.bounds_ok()
        &&& forall|i: int|
            0 <= i < self.buildings@.len() ==> spec_wf_building(#[trigger] self.buildings@[i])
        &&& forall|i: int, j: int|
            0 <= i < j < self.buildings@.len() ==> !spec_overlaps(
                #[trigger] self.buildings@[i],
                #[trigger] self.buildings@[j],
                MIN_CLEARANCE as int,
            )
        &&& forall|i: int|
            0 <= i < self.buildings@.len() ==> (#[trigger] self.buildings@[i]).id == i
        &&& forall|i: int|
            0 <= i < self.buildings@.len() ==> {
                let d = (#[trigger] self.buildings@[i]).door;
                self.is_something@.contains_key((d.0 as int, d.1 as int))
                    ==> self.is_something@[(d.0 as int, d.1 as int)] == BuildingElement::Road
            }
        &&& forall|i: int|
            0 <= i < self.buildings@.len() ==> {
                let b = #[trigger] self.buildings@[i];
                self.min_x <= b.x - CITY_BOUNDS_OFFSET && b.x + b.width + CITY_BOUNDS_OFFSET
                    <= self.max_x && self.min_y <= b.y - CITY_BOUNDS_OFFSET && b.y + b.height
                    + CITY_BOUNDS_OFFSET <= self.max_y
            }
        &&& forall|k: int|
            0 <= k < self.roads@.len() ==> self.spec_road_ok(#[trigger] self.roads@[k]@)
    }

    /// Distance from `v` to the closed interval `[lo, hi]`.
    fn axis_distance(v: i64, lo: i64, hi: i64) -> (r: i64)
        requires
            -CITY_BOUNDS_LIMIT - 2 <= v <= CITY_BOUNDS_LIMIT + 2,
            -CITY_BOUNDS_LIMIT <= lo <= hi <= CITY_BOUNDS_LIMIT,
        ensures
            0 <= r <= 2 * CITY_BOUNDS_LIMIT + 2,
    {
        if v < lo {
            lo - v
        } else if v > hi {
            v - hi
        } else {
            0
        }
    }

    /// Search heuristic: Manhattan distance from `p` to the target's
    /// footprint, weighted by the cheapest step cost. Every step costs
    /// at least that much, so the heuristic never overestimates and the
    /// search returns least-cost roads. One consistent integer scheme
    /// is used for both generation phases.
    fn heuristic(&self, p: (i64, i64), target: &Building) -> (r: i64)
        requires
            spec_wf_building(*target),
            -CITY_BOUNDS_LIMIT - 2 <= p.0 <= CITY_BOUNDS_LIMIT + 2,
            -CITY_BOUNDS_LIMIT - 2 <= p.1 <= CITY_BOUNDS_LIMIT + 2,
        ensures
            r >= 0,
    {
        let dx = Self::axis_distance(p.0, target.x, target.x + target.width);
        let dy = Self::axis_distance(p.1, target.y, target.y + target.height);
        (dx + dy) * ROAD_STEP_COST
    }

    /// Whether the search may stop at `p`.
    fn is_goal(&self, p: (i64, i64), target: &Building) -> (r: bool)
        requires
            spec_wf_building(*target),
            valid_coord((p.0 as int, p.1 as int)),
        ensures
            r == self.spec_goal((p.0 as int, p.1 as int), *target),
    {
        match self.is_something.get(p.0, p.1) {
            Some(BuildingElement::Road) => true,
            _ => target.contains(p),
        }
    }

    /// Append the neighbor `(qx, qy)` with its step cost if it can be
    /// stepped onto, and leave the list unchanged otherwise.
    fn push_neighbor(&self, r: &mut Vec<((i64, i64), i64)>, qx: i64, qy: i64)
        requires
            self.buildings@.len() > 0,
            self.bounds_ok(),
            -CITY_BOUNDS_LIMIT - 3 <= qx <= CITY_BOUNDS_LIMIT + 3,
            -CITY_BOUNDS_LIMIT - 3 <= qy <= CITY_BOUNDS_LIMIT + 3,
        ensures
            forall|k: int| 0 <= k < old(r)@.len() ==> #[trigger] final(r)@[k] == old(r)@[k],
            if self.in_bounds((qx as int, qy as int)) && self.spec_traversable(
                (qx as int, qy as int),
            ) {
                final(r)@ == old(r)@.push(
                    ((qx, qy), self.spec_step_cost((qx as int, qy as int)) as i64),
                )
            } else {
                final(r)@ == old(r)@
            },
    {
        if qx >= self.min_x && qx < self.max_x && qy >= self.min_y && qy < self.max_y {
            match self.is_something.get(qx, qy) {
                Some(BuildingElement::Road) => r.push(((qx, qy), ROAD_STEP_COST)),
                Some(_) => (),
                None => r.push(((qx, qy), EMPTY_STEP_COST)),
            }
        }
    }

    /// The traversable axis neighbors of `p` within the city bounds,
    /// with their step costs: cheap along existing roads, dearer across
    /// free ground, impossible through building walls and interiors.
    /// Exactly the qualifying neighbors appear: nothing else is listed,
    /// and none of them is left out.
    fn successors(&self, p: (i64, i64)) -> (r: Vec<((i64, i64), i64)>)
        requires
            self.buildings@.len() > 0,
            self.bounds_ok(),
            -CITY_BOUNDS_LIMIT - 2 <= p.0 <= CITY_BOUNDS_LIMIT + 2,
            -CITY_BOUNDS_LIMIT - 2 <= p.1 <= CITY_BOUNDS_LIMIT + 2,
        ensures
            forall|k: int|
                0 <= k < r@.len() ==> {
                    let q = ((#[trigger] r@[k]).0.0 as int, r@[k].0.1 as int);
                    &&& spec_adjacent((p.0 as int, p.1 as int), q)
                    &&& self.in_bounds(q)
                    &&& self.spec_traversable(q)
                    &&& r@[k].1 == self.spec_step_cost(q)
                },
            forall|q: (int, int)|
                spec_adjacent((p.0 as int, p.1 as int), q) && self.in_bounds(q)
                    && self.spec_traversable(q) ==> #[trigger] spec_lists_successor(
                    r@,
                    q,
                    self.spec_step_cost(q),
                ),
    {
        let mut r: Vec<((i64, i64), i64)> = Vec::new();
        self.push_neighbor(&mut r, p.0 + 1, p.1);
        let ghost r1 = r@;
        self.push_neighbor(&mut r, p.0 - 1, p.1);
        let ghost r2 = r@;
        self.push_neighbor(&mut r, p.0, p.1 + 1);
        let ghost r3 = r@;
        self.push_neighbor(&mut r, p.0, p.1 - 1);
        proof {
            assert forall|q: (int, int)|
                spec_adjacent((p.0 as int, p.1 as int), q) && self.in_bounds(q)
                    && self.spec_traversable(q) implies #[trigger] spec_lists_successor(
                r@,
                q,
                self.spec_step_cost(q),
            ) by {
                if q.0 == p.0 + 1 && q.1 == p.1 {
                    assert(r1[r1.len() - 1] == (((p.0 + 1) as i64, p.1), self.spec_step_cost(q) as i64));
                    assert(r@[r1.len() - 1] == (((p.0 + 1) as i64, p.1), self.spec_step_cost(q) as i64));
                } else if q.0 == p.0 - 1 && q.1 == p.1 {
                    assert(r2[r2.len() - 1] == (((p.0 - 1) as i64, p.1), self.spec_step_cost(q) as i64));
                    assert(r@[r2.len() - 1] == (((p.0 - 1) as i64, p.1), self.spec_step_cost(q) as i64));
                } else if q.0 == p.0 && q.1 == p.1 + 1 {
                    assert(r3[r3.len() - 1] == ((p.0, (p.1 + 1) as i64), self.spec_step_cost(q) as i64));
                    assert(r@[r3.len() - 1] == ((p.0, (p.1 + 1) as i64), self.spec_step_cost(q) as i64));
                } else {
                    assert(q.0 == p.0 && q.1 == p.1 - 1);
                    assert(r@[r@.len() - 1] == ((p.0, (p.1 - 1) as i64), self.spec_step_cost(q) as i64));
                }
            }
        }
        r
    }

    /// Relies on `pathfinding::prelude::astar`: the returned path
    /// comprises both the start and the end node, every later node comes
    /// from the successors of the one before it, and the end node
    /// satisfies the success predicate; `None` means no goal was
    /// reachable. Our successors are in-bounds, traversable axis
    /// neighbors, so those properties transfer to the path. The
    /// heuristic charges the cheapest step cost per cell of distance to
    /// the target footprint, so it never overestimates the cost of
    /// reaching the target; the search may still stop at a nearer
    /// existing road, for which that distance can overestimate, so no
    /// least-cost claim is made here and the contract states the
    /// structural properties alone, which is all the callers rely on.
    #[verifier::external_body]
    fn find_path(&self, start: (i64, i64), target: &Building) -> (r: Option<Vec<(i64, i64)>>)
        requires
            self.buildings@.len() > 0,
            self.bounds_ok(),
            spec_wf_building(*target),
            -CITY_BOUNDS_LIMIT <= start.0 <= CITY_BOUNDS_LIMIT,
            -CITY_BOUNDS_LIMIT <= start.1 <= CITY_BOUNDS_LIMIT,
        ensures
            match r {
                Some(path) => {
                    &&& path@.len() >= 1
                    &&& path@[0] == start
                    &&& forall|m: int|
                        0 < m < path@.len() ==> {
                            let q = ((#[trigger] path@[m]).0 as int, path@[m].1 as int);
                            &&& spec_adjacent((path@[m - 1].0 as int, path@[m - 1].1 as int), q)
                            &&& self.in_bounds(q)
                            &&& self.spec_traversable(q)
                        }
                    &&& self.spec_goal(
                        (path@[path@.len() - 1].0 as int, path@[path@.len() - 1].1 as int),
                        *target,
                    )
                },
                None => true,
            },
    {
        astar(
            &start,
            |p: &(i64, i64)| self.successors(*p),
            |p: &(i64, i64)| self.heuristic(*p, target),
            |p: &(i64, i64)| self.is_goal(*p, target),
        ).map(|(path, _cost)| path)
    }
}


/// Some coordinate of `road` is `(x, y)`.
pub open spec fn spec_on_road(road: Seq<(i64, i64)>, x: int, y: int) -> bool {
    exists|k: int| 0 <= k < road.len() && (#[trigger] road[k]).0 == x && road[k].1 == y
}

/// A road keeps being valid when the bounds only widen and buildings
/// are only appended.
proof fn lemma_road_ok_stable(c1: CityGenerator, c2: CityGenerator, road: Seq<(i64, i64)>)
    requires
        c1.spec_road_ok(road),
        c2.min_x <= c1.min_x,
        c2.min_y <= c1.min_y,
        c2.max_x >= c1.max_x,
        c2.max_y >= c1.max_y,
        c1.buildings@.len() <= c2.buildings@.len(),
        forall|i: int|
            0 <= i < c1.buildings@.len() ==> #[trigger] c2.buildings@[i] == c1.buildings@[i],
    ensures
        c2.spec_road_ok(road),
{
    if road.len() > 0 {
        let i = choose|i: int|
            0 <= i < c1.buildings@.len() && road[0] == #[trigger] c1.buildings@[i].door;
        assert(road[0] == c2.buildings@[i].door);
    }
}

impl CityGenerator {
    /// Everything a freshly built generator starts with: no buildings,
    /// no roads, an empty occupancy map, and the sentinel bounds.
    pub open spec fn is_fresh(self) -> bool {
        &&& self.buildings@.len() == 0
        &&& self.important_buildings@.len() == 0
        &&& self.roads@.len() == 0
        &&& self.is_something@ == Map::<(int, int), BuildingElement>::empty()
        &&& self.min_x == i64::MAX
        &&& self.min_y == i64::MAX
        &&& self.max_x == 0
        &&& self.max_y == 0
    }

    /// Build a generator from a seed and its configuration ranges. Errs
    /// exactly when a range is empty or outside the accepted bounds.
    pub fn new(
        seed: u64,
        width_lo: i64,
        width_hi: i64,
        height_lo: i64,
        height_hi: i64,
        distance_lo: i64,
        distance_hi: i64,
        important_buildings_max_distance: i64,
    ) -> (r: Result<Self, WorldGenError>)
        ensures
            match r {
                Ok(c) => {
                    &&& c.wf()
                    &&& c.is_fresh()
                    &&& c.width_lo == width_lo && c.width_hi == width_hi
                    &&& c.height_lo == height_lo && c.height_hi == height_hi
                    &&& c.distance_lo == distance_lo && c.distance_hi == distance_hi
                    &&& c.important_buildings_max_distance == important_buildings_max_distance
                },
                Err(e) => {
                    &&& e == WorldGenError::InvalidCityParams
                    &&& !{
                        &&& 1 <= width_lo < width_hi <= 10_000
                        &&& 1 <= height_lo < height_hi <= 10_000
                        &&& 1 <= distance_lo < distance_hi <= 100_000
                        &&& 2 <= important_buildings_max_distance <= 1_000_000
                    }
                },
            },
    {
        if !(1 <= width_lo && width_lo < width_hi && width_hi <= 10_000 && 1 <= height_lo
            && height_lo < height_hi && height_hi <= 10_000 && 1 <= distance_lo
            && distance_lo < distance_hi && distance_hi <= 100_000
            && 2 <= important_buildings_max_distance
            && important_buildings_max_distance <= 1_000_000) {
            return Err(WorldGenError::InvalidCityParams);
        }
        Ok(
            CityGenerator {
                rng: rng_from_seed(seed),
                buildings: Vec::new(),
                important_buildings: Vec::new(),
                roads: Vec::new(),
                min_x: i64::MAX,
                min_y: i64::MAX,
                max_x: 0,
                max_y: 0,
                is_something: Occupancy::new(),
                width_lo,
                width_hi,
                height_lo,
                height_hi,
                distance_lo,
                distance_hi,
                important_buildings_max_distance,
            },
        )
    }

    /// Widen the city bounds so that they contain the new building with
    /// its margin. Bounds only ever move outward.
    fn update_borders_from_new_building(&mut self, b: Building)
        requires
            spec_wf_building(b),
        ensures
            *final(self) == (CityGenerator {
                min_x: final(self).min_x,
                min_y: final(self).min_y,
                max_x: final(self).max_x,
                max_y: final(self).max_y,
                ..*old(self)
            }),
            final(self).min_x == if b.x - CITY_BOUNDS_OFFSET < old(self).min_x {
                b.x - CITY_BOUNDS_OFFSET as int
            } else {
                old(self).min_x as int
            },
            final(self).min_y == if b.y - CITY_BOUNDS_OFFSET < old(self).min_y {
                b.y - CITY_BOUNDS_OFFSET as int
            } else {
                old(self).min_y as int
            },
            final(self).max_x == if b.x + b.width + CITY_BOUNDS_OFFSET > old(self).max_x {
                b.x + b.width + CITY_BOUNDS_OFFSET as int
            } else {
                old(self).max_x as int
            },
            final(self).max_y == if b.y + b.height + CITY_BOUNDS_OFFSET > old(self).max_y {
                b.y + b.height + CITY_BOUNDS_OFFSET as int
            } else {
                old(self).max_y as int
            },
    {
        if b.x - CITY_BOUNDS_OFFSET < self.min_x {
            self.min_x = b.x - CITY_BOUNDS_OFFSET;
        }
        if b.y - CITY_BOUNDS_OFFSET < self.min_y {
            self.min_y = b.y - CITY_BOUNDS_OFFSET;
        }
        if b.x + b.width + CITY_BOUNDS_OFFSET > self.max_x {
            self.max_x = b.x + b.width + CITY_BOUNDS_OFFSET;
        }
        if b.y + b.height + CITY_BOUNDS_OFFSET > self.max_y {
            self.max_y = b.y + b.height + CITY_BOUNDS_OFFSET;
        }
    }

    /// Recompute the borders from the building extremes with their
    /// margin, joined with the current bounds. The invariant keeps
    /// every stored road inside the bounds, so they never shrink; the
    /// resulting bounds are pinned exactly.
    pub fn update_borders(&mut self)
        requires
            old(self).wf(),
        ensures
            final(self).wf(),
            spec_same_config(*final(self), *old(self)),
            final(self).buildings == old(self).buildings,
            final(self).roads == old(self).roads,
            final(self).is_something == old(self).is_something,
            final(self).important_buildings == old(self).important_buildings,
            old(self).buildings@.len() == 0 ==> *final(self) == *old(self),
            old(self).buildings@.len() >= 1 ==> {
                let bs = old(self).buildings@;
                &&& final(self).min_x == (if spec_lowest_x(bs) - CITY_BOUNDS_OFFSET < old(
                    self,
                ).min_x {
                    spec_lowest_x(bs) - CITY_BOUNDS_OFFSET
                } else {
                    old(self).min_x as int
                })
                &&& final(self).min_y == (if spec_lowest_y(bs) - CITY_BOUNDS_OFFSET < old(
                    self,
                ).min_y {
                    spec_lowest_y(bs) - CITY_BOUNDS_OFFSET
                } else {
                    old(self).min_y as int
                })
                &&& final(self).max_x == (if spec_highest_x(bs) + CITY_BOUNDS_OFFSET > old(
                    self,
                ).max_x {
                    spec_highest_x(bs) + CITY_BOUNDS_OFFSET
                } else {
                    old(self).max_x as int
                })
                &&& final(self).max_y == (if spec_highest_y(bs) + CITY_BOUNDS_OFFSET > old(
                    self,
                ).max_y {
                    spec_highest_y(bs) + CITY_BOUNDS_OFFSET
                } else {
                    old(self).max_y as int
                })
            },
    {
        let ghost entry = *self;
        let mut i: usize = 0;
        while i < self.buildings.len()
            invariant
                self.wf(),
                self.buildings == entry.buildings,
                self.roads == entry.roads,
                self.is_something == entry.is_something,
                i <= self.buildings@.len(),
                i == 0 ==> self.min_x == entry.min_x && self.min_y == entry.min_y && self.max_x
                    == entry.max_x && self.max_y == entry.max_y,
                i >= 1 ==> {
                    let bs = entry.buildings@.take(i as int);
                    &&& self.min_x == (if spec_lowest_x(bs) - CITY_BOUNDS_OFFSET < entry.min_x {
                        spec_lowest_x(bs) - CITY_BOUNDS_OFFSET
                    } else {
                        entry.min_x as int
                    })
                    &&& self.min_y == (if spec_lowest_y(bs) - CITY_BOUNDS_OFFSET < entry.min_y {
                        spec_lowest_y(bs) - CITY_BOUNDS_OFFSET
                    } else {
                        entry.min_y as int
                    })
                    &&& self.max_x == (if spec_highest_x(bs) + CITY_BOUNDS_OFFSET > entry.max_x {
                        spec_highest_x(bs) + CITY_BOUNDS_OFFSET
                    } else {
                        entry.max_x as int
                    })
                    &&& self.max_y == (if spec_highest_y(bs) + CITY_BOUNDS_OFFSET > entry.max_y {
                        spec_highest_y(bs) + CITY_BOUNDS_OFFSET
                    } else {
                        entry.max_y as int
                    })
                },
                self.min_x <= entry.min_x,
                self.min_y <= entry.min_y,
                self.max_x >= entry.max_x,
                self.max_y >= entry.max_y,
                *self == (CityGenerator {
                    min_x: self.min_x,
                    min_y: self.min_y,
                    max_x: self.max_x,
                    max_y: self.max_y,
                    ..entry
                }),
            decreases self.buildings.len() - i,
        {
            let ghost before = *self;
            let b = self.buildings[i];
            self.update_borders_from_new_building(b);
            proof {
                let bs1 = entry.buildings@.take(i + 1);
                assert(bs1.drop_last() =~= entry.buildings@.take(i as int));
                assert(bs1.last() == entry.buildings@[i as int]);
                assert forall|k: int| 0 <= k < self.roads@.len() implies self.spec_road_ok(
                    #[trigger] self.roads@[k]@,
                ) by {
                    lemma_road_ok_stable(before, *self, self.roads@[k]@);
                }
            }
            i = i + 1;
        }
        proof {
            if entry.buildings@.len() >= 1 {
                assert(entry.buildings@.take(entry.buildings@.len() as int) =~= entry.buildings@);
            }
        }
    }

    /// Mark every coordinate of a road in the occupancy map.
    fn mark_road(&mut self, road: &Vec<(i64, i64)>)
        requires
            forall|m: int|
                0 <= m < road@.len() ==> valid_coord(
                    ((#[trigger] road@[m]).0 as int, road@[m].1 as int),
                ),
        ensures
            *final(self) == (CityGenerator { is_something: final(self).is_something, ..*old(self) }),
            forall|m: int|
                0 <= m < road@.len() ==> final(self).is_something@.contains_key(
                    ((#[trigger] road@[m]).0 as int, road@[m].1 as int),
                ) && final(self).is_something@[(road@[m].0 as int, road@[m].1 as int)]
                    == BuildingElement::Road,
            forall|x: int, y: int|
                #[trigger] final(self).is_something@.contains_key((x, y))
                    ==> final(self).is_something@[(x, y)] == BuildingElement::Road
                    || (old(self).is_something@.contains_key((x, y))
                    && final(self).is_something@[(x, y)] == old(self).is_something@[(x, y)]),
            forall|x: int, y: int|
                #[trigger] final(self).is_something@.contains_key((x, y))
                    ==> old(self).is_something@.contains_key((x, y)) || spec_on_road(road@, x, y),
    {
        let mut m: usize = 0;
        while m < road.len()
            invariant
                forall|k: int|
                    0 <= k < road@.len() ==> valid_coord(
                        ((#[trigger] road@[k]).0 as int, road@[k].1 as int),
                    ),
                *self == (CityGenerator { is_something: self.is_something, ..*old(self) }),
                m <= road@.len(),
                forall|k: int|
                    0 <= k < m ==> self.is_something@.contains_key(
                        ((#[trigger] road@[k]).0 as int, road@[k].1 as int),
                    ) && self.is_something@[(road@[k].0 as int, road@[k].1 as int)]
                        == BuildingElement::Road,
                forall|x: int, y: int|
                    #[trigger] self.is_something@.contains_key((x, y))
                        ==> self.is_something@[(x, y)] == BuildingElement::Road
                        || (old(self).is_something@.contains_key((x, y))
                        && self.is_something@[(x, y)] == old(self).is_something@[(x, y)]),
                forall|x: int, y: int|
                    #[trigger] self.is_something@.contains_key((x, y))
                        ==> old(self).is_something@.contains_key((x, y))
                        || spec_on_road(road@, x, y),
            decreases road@.len() - m,
        {
            let (cx, cy) = road[m];
            self.is_something.set(cx, cy, BuildingElement::Road);
            proof {
                assert((road@[m as int]).0 == cx && road@[m as int].1 == cy);
                assert(spec_on_road(road@, cx as int, cy as int));
            }
            m = m + 1;
        }
    }
}


impl CityGenerator {
    /// Largest coordinate magnitude of a coarse-phase building.
    pub open spec fn coarse_box(b: Building) -> bool {
        &&& -2_000_000 <= b.x && b.x + b.width <= 2_000_000
        &&& -2_000_000 <= b.y && b.y + b.height <= 2_000_000
    }

    /// Draw one important building at the coarse scale: a random
    /// position within the configured spread, sides shrunk by the scale
    /// factor, rejected and retried while it would sit too close to an
    /// existing building. Errs once the retry budget is spent.
    fn generate_random_important_building(&mut self, scale_factor: i64) -> (r: Result<
        Building,
        WorldGenError,
    >)
        requires
            old(self).params_ok(),
            forall|j: int|
                0 <= j < old(self).buildings@.len() ==> spec_wf_building(
                    #[trigger] old(self).buildings@[j],
                ),
            1 <= scale_factor <= 100,
            old(self).important_buildings_max_distance as int / (2 * scale_factor) >= 1,
        ensures
            *final(self) == (CityGenerator { rng: final(self).rng, ..*old(self) }),
            match r {
                Ok(b) => {
                    &&& spec_wf_building(b)
                    &&& Self::coarse_box(b)
                    &&& b.is_important
                    &&& b.id == old(self).buildings@.len()
                    &&& b.width * scale_factor <= 10_000 + scale_factor
                    &&& b.height * scale_factor <= 10_000 + scale_factor
                    &&& forall|j: int|
                        0 <= j < old(self).buildings@.len() ==> !spec_overlaps(
                            #[trigger] old(self).buildings@[j],
                            b,
                            MIN_CLEARANCE as int,
                        )
                },
                Err(e) => {
                    &&& e == WorldGenError::PlacementExhausted
                    &&& old(self).buildings@.len() > 0
                },
            },
    {
        let half = self.important_buildings_max_distance / (2 * scale_factor);
        proof {
            assert(self.important_buildings_max_distance as int / (2 * scale_factor as int)
                <= 500_000) by (nonlinear_arith)
                requires
                    2 <= self.important_buildings_max_distance <= 1_000_000,
                    1 <= scale_factor <= 100,
            ;
        }
        let mut attempts: u64 = 0;
        while attempts < MAX_PLACEMENT_ATTEMPTS
            invariant
                self.params_ok(),
                forall|j: int|
                    0 <= j < self.buildings@.len() ==> spec_wf_building(
                        #[trigger] self.buildings@[j],
                    ),
                1 <= scale_factor <= 100,
                1 <= half <= 500_000,
                *self == (CityGenerator { rng: self.rng, ..*old(self) }),
                old(self).buildings@.len() == 0 ==> attempts == 0,
            decreases MAX_PLACEMENT_ATTEMPTS - attempts,
        {
            let x = gen_range_i64(&mut self.rng, -half, half);
            let y = gen_range_i64(&mut self.rng, -half, half);
            let raw_w = gen_range_i64(&mut self.rng, self.width_lo, self.width_hi);
            let raw_h = gen_range_i64(&mut self.rng, self.height_lo, self.height_hi);
            proof {
                assert(1 <= (raw_w + scale_factor) / (scale_factor as int)
                    && (raw_w + scale_factor) / (scale_factor as int) <= raw_w + 1
                    && ((raw_w + scale_factor) / (scale_factor as int)) * scale_factor <= raw_w
                    + scale_factor) by (nonlinear_arith)
                    requires
                        1 <= raw_w < 10_000,
                        1 <= scale_factor <= 100,
                ;
                assert(1 <= (raw_h + scale_factor) / (scale_factor as int)
                    && (raw_h + scale_factor) / (scale_factor as int) <= raw_h + 1
                    && ((raw_h + scale_factor) / (scale_factor as int)) * scale_factor <= raw_h
                    + scale_factor) by (nonlinear_arith)
                    requires
                        1 <= raw_h < 10_000,
                        1 <= scale_factor <= 100,
                ;
            }
            let width = (raw_w + scale_factor) / scale_factor;
            let height = (raw_h + scale_factor) / scale_factor;
            let id = self.buildings.len();
            let candidate = Building::with_random_door(&mut self.rng, x, y, width, height, id)
                .make_important();
            let mut hit = false;
            let mut j: usize = 0;
            while j < self.buildings.len()
                invariant
                    forall|k: int|
                        0 <= k < self.buildings@.len() ==> spec_wf_building(
                            #[trigger] self.buildings@[k],
                        ),
                    spec_wf_building(candidate),
                    j <= self.buildings@.len(),
                    self.buildings@.len() == 0 ==> !hit,
                    !hit ==> forall|k: int|
                        0 <= k < j ==> !spec_overlaps(
                            #[trigger] self.buildings@[k],
                            candidate,
                            MIN_CLEARANCE as int,
                        ),
                decreases self.buildings@.len() - j,
            {
                if self.buildings[j].overlaps(&candidate, MIN_CLEARANCE) {
                    hit = true;
                }
                j = j + 1;
            }
            if !hit {
                return Ok(candidate);
            }
            attempts = attempts + 1;
        }
        Err(WorldGenError::PlacementExhausted)
    }
}




/// `b` is `a` with every coordinate and side multiplied by `s`.
pub open spec fn spec_scaled_of(a: Building, b: Building, s: int) -> bool {
    &&& b.x == a.x * s
    &&& b.y == a.y * s
    &&& b.width == a.width * s
    &&& b.height == a.height * s
    &&& b.door.0 == a.door.0 * s
    &&& b.door.1 == a.door.1 * s
    &&& b.is_important == a.is_important
    &&& b.id == a.id
}

/// Scaling a coarse building keeps it well formed.
proof fn lemma_scale_wf(a: Building, b: Building, s: int)
    requires
        spec_wf_building(a),
        CityGenerator::coarse_box(a),
        a.width * s <= MAX_BUILDING_DIM,
        a.height * s <= MAX_BUILDING_DIM,
        spec_scaled_of(a, b, s),
        1 <= s <= 100,
    ensures
        spec_wf_building(b),
{
    assert(1 <= a.width * s && 1 <= a.height * s) by (nonlinear_arith)
        requires
            1 <= a.width,
            1 <= a.height,
            1 <= s,
    ;
    assert(-200_000_000 <= a.x * s && a.x * s + a.width * s <= 200_000_000 && -200_000_000 <= a.y
        * s && a.y * s + a.height * s <= 200_000_000) by (nonlinear_arith)
        requires
            -2_000_000 <= a.x && a.x + a.width <= 2_000_000,
            -2_000_000 <= a.y && a.y + a.height <= 2_000_000,
            1 <= s <= 100,
    ;
    assert(a.x * s <= a.door.0 * s <= a.x * s + a.width * s && a.y * s <= a.door.1 * s <= a.y * s
        + a.height * s) by (nonlinear_arith)
        requires
            a.x <= a.door.0 <= a.x + a.width,
            a.y <= a.door.1 <= a.y + a.height,
            1 <= s,
    ;
    if a.door.1 == a.y || a.door.1 == a.y + a.height {
        assert(a.door.1 == a.y + a.height ==> a.door.1 * s == a.y * s + a.height * s)
            by (nonlinear_arith);
    }
    if a.door.0 == a.x || a.door.0 == a.x + a.width {
        assert(a.door.0 == a.x + a.width ==> a.door.0 * s == a.x * s + a.width * s)
            by (nonlinear_arith);
    }
}

/// Scaling both buildings keeps the minimum clearance between them.
proof fn lemma_scale_keeps_clearance(a1: Building, a2: Building, b1: Building, b2: Building, s: int)
    requires
        !spec_overlaps(a1, a2, MIN_CLEARANCE as int),
        spec_scaled_of(a1, b1, s),
        spec_scaled_of(a2, b2, s),
        1 <= s,
    ensures
        !spec_overlaps(b1, b2, MIN_CLEARANCE as int),
{
    if a1.x - 3 >= a2.x + a2.width {
        assert(a1.x * s - 3 >= a2.x * s + a2.width * s) by (nonlinear_arith)
            requires
                a1.x - 3 >= a2.x + a2.width,
                1 <= s,
        ;
    } else if a1.x + a1.width + 3 <= a2.x {
        assert(a1.x * s + a1.width * s + 3 <= a2.x * s) by (nonlinear_arith)
            requires
                a1.x + a1.width + 3 <= a2.x,
                1 <= s,
        ;
    } else if a1.y - 3 >= a2.y + a2.height {
        assert(a1.y * s - 3 >= a2.y * s + a2.height * s) by (nonlinear_arith)
            requires
                a1.y - 3 >= a2.y + a2.height,
                1 <= s,
        ;
    } else {
        assert(a1.y * s + a1.height * s + 3 <= a2.y * s) by (nonlinear_arith)
            requires
                a1.y + a1.height + 3 <= a2.y,
                1 <= s,
        ;
    }
}

/// Expand a road to a finer scale: every cell is mapped to its scaled
/// position and each unit segment is stretched into `s` consecutive
/// unit steps along its original direction.
#[verifier::rlimit(100)]
fn scale_road(road: &Vec<(i64, i64)>, s: i64, lo_x: i64, hi_x: i64, lo_y: i64, hi_y: i64) -> (r:
    Vec<(i64, i64)>)
    requires
        road@.len() >= 2,
        2 <= s <= 100,
        -2_000_020 <= lo_x < hi_x <= 2_000_020,
        -2_000_020 <= lo_y < hi_y <= 2_000_020,
        forall|m: int|
            0 <= m < road@.len() ==> lo_x <= (#[trigger] road@[m]).0 < hi_x && lo_y <= road@[m].1
                < hi_y,
        forall|m: int|
            0 <= m < road@.len() - 1 ==> spec_adjacent(
                ((#[trigger] road@[m]).0 as int, road@[m].1 as int),
                (road@[m + 1].0 as int, road@[m + 1].1 as int),
            ),
    ensures
        r@.len() == (road@.len() - 1) * s,
        r@[0].0 == road@[0].0 * s && r@[0].1 == road@[0].1 * s,
        forall|m: int|
            0 <= m < r@.len() ==> lo_x * s <= (#[trigger] r@[m]).0 < hi_x * s && lo_y * s
                <= r@[m].1 < hi_y * s,
        forall|m: int|
            0 <= m < r@.len() - 1 ==> spec_adjacent(
                ((#[trigger] r@[m]).0 as int, r@[m].1 as int),
                (r@[m + 1].0 as int, r@[m + 1].1 as int),
            ),
{
    let mut scaled: Vec<(i64, i64)> = Vec::new();
    let mut i: usize = 0;
    while i < road.len() - 1
        invariant
            road@.len() >= 2,
            2 <= s <= 100,
            -2_000_020 <= lo_x < hi_x <= 2_000_020,
            -2_000_020 <= lo_y < hi_y <= 2_000_020,
            forall|m: int|
                0 <= m < road@.len() ==> lo_x <= (#[trigger] road@[m]).0 < hi_x && lo_y
                    <= road@[m].1 < hi_y,
            forall|m: int|
                0 <= m < road@.len() - 1 ==> spec_adjacent(
                    ((#[trigger] road@[m]).0 as int, road@[m].1 as int),
                    (road@[m + 1].0 as int, road@[m + 1].1 as int),
                ),
            0 <= i <= road@.len() - 1,
            scaled@.len() == i * s,
            i > 0 ==> scaled@[0].0 == road@[0].0 * s && scaled@[0].1 == road@[0].1 * s,
            forall|m: int|
                0 <= m < scaled@.len() ==> lo_x * s <= (#[trigger] scaled@[m]).0 < hi_x * s && lo_y
                    * s <= scaled@[m].1 < hi_y * s,
            forall|m: int|
                0 <= m < scaled@.len() - 1 ==> spec_adjacent(
                    ((#[trigger] scaled@[m]).0 as int, scaled@[m].1 as int),
                    (scaled@[m + 1].0 as int, scaled@[m + 1].1 as int),
                ),
            i > 0 ==> spec_adjacent(
                (scaled@[scaled@.len() - 1].0 as int, scaled@[scaled@.len() - 1].1 as int),
                (road@[i as int].0 * s, road@[i as int].1 * s),
            ),
        decreases road@.len() - 1 - i,
    {
        let c = road[i];
        let cn = road[i + 1];
        let dx = cn.0 - c.0;
        let dy = cn.1 - c.1;
        proof {
            assert(lo_x * s <= c.0 * s && (c.0 + 1) * s <= hi_x * s && lo_y * s <= c.1 * s && (c.1
                + 1) * s <= hi_y * s && lo_x * s <= cn.0 * s && (cn.0 + 1) * s <= hi_x * s && lo_y
                * s <= cn.1 * s && (cn.1 + 1) * s <= hi_y * s) by (nonlinear_arith)
                requires
                    lo_x <= c.0 < hi_x,
                    lo_y <= c.1 < hi_y,
                    lo_x <= cn.0 < hi_x,
                    lo_y <= cn.1 < hi_y,
                    1 <= s,
            ;
            assert((c.0 + 1) * s == c.0 * s + s && (c.1 + 1) * s == c.1 * s + s && (cn.0 + 1) * s
                == cn.0 * s + s && (cn.1 + 1) * s == cn.1 * s + s) by (nonlinear_arith);
            assert(-300_000_000 <= lo_x * s && hi_x * s <= 300_000_000 && -300_000_000 <= lo_y * s
                && hi_y * s <= 300_000_000) by (nonlinear_arith)
                requires
                    -2_000_020 <= lo_x < hi_x <= 2_000_020,
                    -2_000_020 <= lo_y < hi_y <= 2_000_020,
                    1 <= s <= 100,
            ;
        }
        let mut px = c.0 * s;
        let mut py = c.1 * s;
        let mut t: i64 = 0;
        proof {
            assert(i == 0 ==> i * s == 0) by (nonlinear_arith);
            if i > 0 {
                assert(i * s >= s) by (nonlinear_arith)
                    requires
                        0 < i,
                        0 < s,
                ;
            }
        }
        while t < s
            invariant
                2 <= s <= 100,
                0 <= t <= s,
                0 <= i < road@.len() - 1,
                c == road@[i as int],
                cn == road@[i as int + 1],
                dx == cn.0 - c.0,
                dy == cn.1 - c.1,
                spec_adjacent((c.0 as int, c.1 as int), (cn.0 as int, cn.1 as int)),
                px == c.0 * s + t * dx,
                py == c.1 * s + t * dy,
                lo_x * s <= c.0 * s && c.0 * s + s <= hi_x * s,
                lo_y * s <= c.1 * s && c.1 * s + s <= hi_y * s,
                lo_x * s <= cn.0 * s && cn.0 * s + s <= hi_x * s,
                lo_y * s <= cn.1 * s && cn.1 * s + s <= hi_y * s,
                -300_000_000 <= lo_x * s && hi_x * s <= 300_000_000,
                -300_000_000 <= lo_y * s && hi_y * s <= 300_000_000,
                scaled@.len() == i * s + t,
                scaled@.len() > 0 && t == 0 ==> spec_adjacent(
                    (scaled@[scaled@.len() - 1].0 as int, scaled@[scaled@.len() - 1].1 as int),
                    (c.0 * s, c.1 * s),
                ),
                t > 0 ==> scaled@[scaled@.len() - 1].0 == px - dx && scaled@[scaled@.len() - 1].1
                    == py - dy,
                scaled@.len() > 0 ==> scaled@[0].0 == road@[0].0 * s && scaled@[0].1 == road@[0].1
                    * s,
                forall|m: int|
                    0 <= m < scaled@.len() ==> lo_x * s <= (#[trigger] scaled@[m]).0 < hi_x * s
                        && lo_y * s <= scaled@[m].1 < hi_y * s,
                forall|m: int|
                    0 <= m < scaled@.len() - 1 ==> spec_adjacent(
                        ((#[trigger] scaled@[m]).0 as int, scaled@[m].1 as int),
                        (scaled@[m + 1].0 as int, scaled@[m + 1].1 as int),
                    ),
            decreases s - t,
        {
            proof {
                assert(t * dx == if dx == 1 { t as int } else if dx == -1 { -t as int } else { 0int })
                    by (nonlinear_arith)
                    requires
                        -1 <= dx <= 1,
                ;
                assert(t * dy == if dy == 1 { t as int } else if dy == -1 { -t as int } else { 0int })
                    by (nonlinear_arith)
                    requires
                        -1 <= dy <= 1,
                ;
            }
            proof {
                if dx == 1 {
                    assert(cn.0 * s == c.0 * s + s) by (nonlinear_arith)
                        requires
                            cn.0 == c.0 + 1,
                    ;
                }
                if dx == -1 {
                    assert(cn.0 * s == c.0 * s - s) by (nonlinear_arith)
                        requires
                            cn.0 == c.0 - 1,
                    ;
                }
                if dy == 1 {
                    assert(cn.1 * s == c.1 * s + s) by (nonlinear_arith)
                        requires
                            cn.1 == c.1 + 1,
                    ;
                }
                if dy == -1 {
                    assert(cn.1 * s == c.1 * s - s) by (nonlinear_arith)
                        requires
                            cn.1 == c.1 - 1,
                    ;
                }
                if scaled@.len() == 0 {
                    assert(i == 0 && t == 0) by (nonlinear_arith)
                        requires
                            scaled@.len() == i * s + t,
                            scaled@.len() == 0,
                            0 <= i,
                            0 <= t,
                            2 <= s,
                    ;
                }
            }
            scaled.push((px, py));
            px = px + dx;
            py = py + dy;
            t = t + 1;
            proof {
                assert(t * dx == (t - 1) * dx + dx && t * dy == (t - 1) * dy + dy)
                    by (nonlinear_arith);
            }
        }
        i = i + 1;
        proof {
            assert(road@[i as int].0 * s == c.0 * s + s * dx && road@[i as int].1 * s == c.1 * s
                + s * dy) by (nonlinear_arith)
                requires
                    road@[i as int].0 == c.0 + dx,
                    road@[i as int].1 == c.1 + dy,
            ;
            assert(s * dx == (s - 1) * dx + dx && s * dy == (s - 1) * dy + dy) by (nonlinear_arith);
            assert((i * s) as int == (i - 1) * s + s) by (nonlinear_arith);
            assert(scaled@.len() > 0) by (nonlinear_arith)
                requires
                    scaled@.len() == (i - 1) * s + s,
                    1 <= i,
                    2 <= s,
            ;
        }
    }
    scaled
}

/// The two generators share every configuration field.
pub open spec fn spec_same_config(a: CityGenerator, b: CityGenerator) -> bool {
    &&& a.width_lo == b.width_lo && a.width_hi == b.width_hi
    &&& a.height_lo == b.height_lo && a.height_hi == b.height_hi
    &&& a.distance_lo == b.distance_lo && a.distance_hi == b.distance_hi
    &&& a.important_buildings_max_distance == b.important_buildings_max_distance
}

/// The smallest left edge among the buildings.
pub open spec fn spec_lowest_x(s: Seq<Building>) -> int
    recommends
        s.len() >= 1,
    decreases s.len(),
{
    if s.len() <= 1 {
        s[0].x as int
    } else {
        let p = spec_lowest_x(s.drop_last());
        if s.last().x < p {
            s.last().x as int
        } else {
            p
        }
    }
}

/// The smallest bottom edge among the buildings.
pub open spec fn spec_lowest_y(s: Seq<Building>) -> int
    recommends
        s.len() >= 1,
    decreases s.len(),
{
    if s.len() <= 1 {
        s[0].y as int
    } else {
        let p = spec_lowest_y(s.drop_last());
        if s.last().y < p {
            s.last().y as int
        } else {
            p
        }
    }
}

/// The largest right edge among the buildings.
pub open spec fn spec_highest_x(s: Seq<Building>) -> int
    recommends
        s.len() >= 1,
    decreases s.len(),
{
    if s.len() <= 1 {
        s[0].x + s[0].width
    } else {
        let p = spec_highest_x(s.drop_last());
        if s.last().x + s.last().width > p {
            s.last().x + s.last().width
        } else {
            p
        }
    }
}

/// The largest top edge among the buildings.
pub open spec fn spec_highest_y(s: Seq<Building>) -> int
    recommends
        s.len() >= 1,
    decreases s.len(),
{
    if s.len() <= 1 {
        s[0].y + s[0].height
    } else {
        let p = spec_highest_y(s.drop_last());
        if s.last().y + s.last().height > p {
            s.last().y + s.last().height
        } else {
            p
        }
    }
}

/// How many buildings of the list carry the importance flag.
pub open spec fn spec_important_count(s: Seq<Building>) -> nat
    decreases s.len(),
{
    if s.len() == 0 {
        0
    } else {
        spec_important_count(s.drop_last()) + if s.last().is_important {
            1nat
        } else {
            0nat
        }
    }
}

/// When every building is important, the count is the whole list.
proof fn lemma_important_count_full(s: Seq<Building>)
    requires
        forall|k: int| 0 <= k < s.len() ==> (#[trigger] s[k]).is_important,
    ensures
        spec_important_count(s) == s.len(),
    decreases s.len(),
{
    if s.len() > 0 {
        lemma_important_count_full(s.drop_last());
    }
}

/// A door always lies on its own building's outline, hence inside the
/// closed footprint.
proof fn lemma_door_in_box(b: Building)
    requires
        spec_door_on_wall(b),
        b.width >= 0,
        b.height >= 0,
    ensures
        spec_contains(b, (b.door.0 as int, b.door.1 as int)),
{
}

impl CityGenerator {
    /// There is at least one important building.
    pub open spec fn has_important(self) -> bool {
        exists|i: int|
            0 <= i < self.buildings@.len() && (#[trigger] self.buildings@[i]).is_important
    }

    /// Place `n` important buildings at the coarse scale and connect
    /// every ordered pair of them by a road. Errs, leaving a
    /// well-formed partial city, when a placement runs out of retries.
    fn generate_important_buildings(&mut self, n: usize, scale_factor: i64) -> (r: Result<
        (),
        WorldGenError,
    >)
        requires
            old(self).wf(),
            old(self).is_fresh(),
            1 <= scale_factor <= 100,
            old(self).important_buildings_max_distance as int / (2 * scale_factor) >= 1,
            1 <= n <= 1_000_000,
        ensures
            final(self).wf(),
            spec_same_config(*final(self), *old(self)),
            match r {
                Ok(()) => {
                    &&& final(self).buildings@.len() == n
                    &&& forall|k: int|
                        0 <= k < n ==> (#[trigger] final(self).buildings@[k]).is_important
                    &&& final(self).has_important()
                    &&& final(self).buildings@.len() <= 1_000_000
                    &&& final(self).important_buildings@.len() == n
                    &&& final(self).roads@.len() == n * (n - 1)
                },
                Err(e) => e == WorldGenError::PlacementExhausted,
            },
            n == 1 ==> r matches Ok(()),
    {
        let ghost md_req = old(self).important_buildings_max_distance as int / (2
            * scale_factor as int);
        let mut i: usize = 0;
        while i < n
            invariant
                self.wf(),
                spec_same_config(*self, *old(self)),
                self.buildings@.len() == i,
                self.important_buildings@.len() == i,
                i <= n,
                n <= 1_000_000,
                self.roads@.len() == 0,
                1 <= scale_factor <= 100,
                self.important_buildings_max_distance as int / (2 * scale_factor) >= 1,
                forall|k: int| 0 <= k < i ==> (#[trigger] self.buildings@[k]).is_important,
                forall|k: int| 0 <= k < i ==> Self::coarse_box(#[trigger] self.buildings@[k]),
                forall|k: int|
                    0 <= k < i ==> (#[trigger] self.buildings@[k]).width * scale_factor <= 10_000
                        + scale_factor && self.buildings@[k].height * scale_factor <= 10_000
                        + scale_factor,
                i == 0 ==> self.min_x == i64::MAX && self.min_y == i64::MAX && self.max_x == 0
                    && self.max_y == 0,
                i > 0 ==> -2_000_020 <= self.min_x <= self.max_x <= 2_000_020 && -2_000_020
                    <= self.min_y <= self.max_y <= 2_000_020,
            decreases n - i,
        {
            let b = match self.generate_random_important_building(scale_factor) {
                Ok(b) => b,
                Err(e) => {
                    proof {
                        if n == 1 {
                            assert(false);
                        }
                    }
                    return Err(e);
                },
            };
            self.register_building(b);
            self.important_buildings.push((b.x, b.y));
            self.update_borders_from_new_building(b);
            self.buildings.push(b);
            proof {
                let pre = self.buildings@.drop_last();
                assert forall|k: int| 0 <= k < i implies {
                    let d = (#[trigger] self.buildings@[k]).door;
                    self.is_something@.contains_key((d.0 as int, d.1 as int))
                        ==> self.is_something@[(d.0 as int, d.1 as int)] == BuildingElement::Road
                } by {
                    let bk = self.buildings@[k];
                    lemma_clearance_monotone(bk, b, 1, MIN_CLEARANCE as int);
                    lemma_door_in_box(bk);
                    lemma_clearance_separates(bk, b, (bk.door.0 as int, bk.door.1 as int));
                }
            }
            i = i + 1;
        }
        let nb = self.buildings.len();
        let ghost after_a = *self;
        let mut bi: usize = 0;
        while bi < nb
            invariant
                self.wf(),
                after_a.wf(),
                nb == self.buildings@.len(),
                1 <= nb <= 1_000_000,
                bi <= nb,
                self.roads@.len() == bi * (nb - 1),
                *self == (CityGenerator {
                    roads: self.roads,
                    is_something: self.is_something,
                    ..after_a
                }),
                forall|k: int| 0 <= k < nb ==> (#[trigger] self.buildings@[k]).is_important,
            decreases nb - bi,
        {
            let mut bj: usize = 0;
            while bj < nb
                invariant
                    self.wf(),
                    after_a.wf(),
                    bi < nb,
                    bj <= nb,
                    nb == self.buildings@.len(),
                    1 <= nb <= 1_000_000,
                    self.roads@.len() == bi * (nb - 1) + bj - (if bj > bi {
                        1int
                    } else {
                        0int
                    }),
                    *self == (CityGenerator {
                        roads: self.roads,
                        is_something: self.is_something,
                        ..after_a
                    }),
                    forall|k: int| 0 <= k < nb ==> (#[trigger] self.buildings@[k]).is_important,
                decreases nb - bj,
            {
                if bi != bj {
                    let src = self.buildings[bi];
                    let dst = self.buildings[bj];
                    let found = self.find_path(src.door, &dst);
                    let ghost pre = *self;
                    match found {
                        Some(path) => {
                            proof {
                                assert forall|m: int| 0 <= m < path@.len() implies valid_coord(
                                    ((#[trigger] path@[m]).0 as int, path@[m].1 as int),
                                ) by {
                                    if m == 0 {
                                        assert(path@[0] == src.door);
                                    }
                                }
                            }
                            self.mark_road(&path);
                            proof {
                                assert forall|k: int| 0 <= k < self.buildings@.len() implies {
                                    let d = (#[trigger] self.buildings@[k]).door;
                                    self.is_something@.contains_key((d.0 as int, d.1 as int))
                                        ==> self.is_something@[(d.0 as int, d.1 as int)]
                                        == BuildingElement::Road
                                } by {
                                    let d = self.buildings@[k].door;
                                    assert(pre.buildings@[k] == self.buildings@[k]);
                                }
                                assert forall|k: int| 0 <= k < self.roads@.len() implies
                                    self.spec_road_ok(#[trigger] self.roads@[k]@) by {
                                    lemma_road_ok_stable(pre, *self, self.roads@[k]@);
                                }
                            }
                            let ghost pre2 = *self;
                            self.roads.push(path);
                            proof {
                                assert forall|k: int| 0 <= k < self.roads@.len() implies
                                    self.spec_road_ok(#[trigger] self.roads@[k]@) by {
                                    if k < self.roads@.len() - 1 {
                                        lemma_road_ok_stable(pre2, *self, self.roads@[k]@);
                                    } else {
                                        assert(self.roads@[k]@ == path@);
                                        assert(path@[0] == self.buildings@[bi as int].door);
                                        assert(spec_contains(src, (path@[0].0 as int, path@[0].1 as int))) by {
                                            lemma_door_in_box(src);
                                        }
                                        assert(self.in_bounds((path@[0].0 as int, path@[0].1 as int)));
                                    }
                                }
                            }
                        },
                        None => {
                            let ghost pre2 = *self;
                            self.roads.push(Vec::new());
                            proof {
                                assert forall|k: int| 0 <= k < self.roads@.len() implies
                                    self.spec_road_ok(#[trigger] self.roads@[k]@) by {
                                    if k < self.roads@.len() - 1 {
                                        lemma_road_ok_stable(pre2, *self, self.roads@[k]@);
                                    }
                                }
                            }
                        },
                    }
                }
                bj = bj + 1;
            }
            bi = bi + 1;
            proof {
                assert(bi * (nb - 1) == (bi - 1) * (nb - 1) + nb - 1) by (nonlinear_arith);
            }
        }
        if scale_factor > 1 {
            proof {
                assert forall|k: int| 0 <= k < self.buildings@.len() implies Self::coarse_box(
                    #[trigger] self.buildings@[k],
                ) && self.buildings@[k].width * scale_factor <= MAX_BUILDING_DIM
                    && self.buildings@[k].height * scale_factor <= MAX_BUILDING_DIM by {
                    assert(self.buildings@[k] == after_a.buildings@[k]);
                }
            }
            self.rescale(scale_factor);
            proof {
                lemma_important_count_full(self.buildings@);
            }
        }
        proof {
            assert(self.buildings@[0].is_important);
        }
        Ok(())
    }
}



impl CityGenerator {
    /// Rescale the whole coarse city by `s`: bounds, buildings, doors
    /// and roads are multiplied, buildings re-registered in a fresh
    /// occupancy map, and every road expanded into unit steps.
    #[verifier::rlimit(100)]
    fn rescale(&mut self, s: i64)
        requires
            old(self).wf(),
            2 <= s <= 100,
            old(self).buildings@.len() >= 1,
            forall|k: int|
                0 <= k < old(self).buildings@.len() ==> Self::coarse_box(
                    #[trigger] old(self).buildings@[k],
                ),
            forall|k: int|
                0 <= k < old(self).buildings@.len() ==> (#[trigger] old(self).buildings@[k]).width
                    * s <= MAX_BUILDING_DIM && old(self).buildings@[k].height * s
                    <= MAX_BUILDING_DIM,
            -2_000_020 <= old(self).min_x <= old(self).max_x <= 2_000_020,
            -2_000_020 <= old(self).min_y <= old(self).max_y <= 2_000_020,
        ensures
            final(self).wf(),
            spec_same_config(*final(self), *old(self)),
            final(self).buildings@.len() == old(self).buildings@.len(),
            final(self).roads@.len() == old(self).roads@.len(),
            final(self).important_buildings@.len() == spec_important_count(
                final(self).buildings@,
            ),
            forall|k: int|
                0 <= k < old(self).buildings@.len() ==> (#[trigger] final(self).buildings@[k]).is_important
                    == old(self).buildings@[k].is_important,
    {
        let ghost entry = *old(self);
        let old_min_x = self.min_x;
        let old_min_y = self.min_y;
        let old_max_x = self.max_x;
        let old_max_y = self.max_y;
        self.is_something.clear();
        proof {
            assert(-300_000_000 <= old_min_x * s && old_max_x * s <= 300_000_000 && old_min_x * s
                <= old_max_x * s && -300_000_000 <= old_min_y * s && old_max_y * s <= 300_000_000
                && old_min_y * s <= old_max_y * s) by (nonlinear_arith)
                requires
                    -2_000_020 <= old_min_x <= old_max_x <= 2_000_020,
                    -2_000_020 <= old_min_y <= old_max_y <= 2_000_020,
                    1 <= s <= 100,
            ;
        }
        self.min_x = self.min_x * s;
        self.min_y = self.min_y * s;
        self.max_x = self.max_x * s;
        self.max_y = self.max_y * s;
        let ghost mid = *self;
        let n = self.buildings.len();
        let mut i: usize = 0;
        while i < n
            invariant
                2 <= s <= 100,
                n == self.buildings@.len(),
                n == entry.buildings@.len(),
                forall|k: int|
                    0 <= k < n ==> Self::coarse_box(#[trigger] entry.buildings@[k])
                        && spec_wf_building(entry.buildings@[k]) && entry.buildings@[k].width * s
                        <= MAX_BUILDING_DIM && entry.buildings@[k].height * s <= MAX_BUILDING_DIM,
                *self == (CityGenerator { buildings: self.buildings, ..mid }),
                forall|k: int|
                    0 <= k < i ==> spec_scaled_of(
                        entry.buildings@[k],
                        #[trigger] self.buildings@[k],
                        s as int,
                    ),
                forall|k: int|
                    i <= k < n ==> #[trigger] self.buildings@[k] == entry.buildings@[k],
            decreases n - i,
        {
            let b = self.buildings[i];
            proof {
                assert(-200_000_000 <= b.x * s && -200_000_000 <= b.y * s && b.x * s + b.width * s
                    <= 200_000_000 && b.y * s + b.height * s <= 200_000_000 && -200_000_000
                    <= b.door.0 * s <= 200_000_000 && -200_000_000 <= b.door.1 * s
                    <= 200_000_000) by (nonlinear_arith)
                    requires
                        -2_000_000 <= b.x && b.x + b.width <= 2_000_000,
                        -2_000_000 <= b.y && b.y + b.height <= 2_000_000,
                        -2_000_000 <= b.door.0 <= 2_000_000,
                        -2_000_000 <= b.door.1 <= 2_000_000,
                        1 <= b.width <= MAX_BUILDING_DIM,
                        1 <= b.height <= MAX_BUILDING_DIM,
                        b.width * s <= MAX_BUILDING_DIM,
                        b.height * s <= MAX_BUILDING_DIM,
                        1 <= s <= 100,
                ;
                assert(-2_000_000 <= b.door.0 <= 2_000_000 && -2_000_000 <= b.door.1
                    <= 2_000_000) by {
                    lemma_door_in_box(b);
                };
            }
            let nb = Building {
                door: (b.door.0 * s, b.door.1 * s),
                x: b.x * s,
                y: b.y * s,
                width: b.width * s,
                height: b.height * s,
                is_important: b.is_important,
                id: b.id,
            };
            self.buildings.set(i, nb);
            i = i + 1;
        }
        proof {
            assert forall|k: int| 0 <= k < n implies spec_wf_building(
                #[trigger] self.buildings@[k],
            ) by {
                lemma_scale_wf(entry.buildings@[k], self.buildings@[k], s as int);
            }
            assert forall|k1: int, k2: int| 0 <= k1 < k2 < n implies !spec_overlaps(
                #[trigger] self.buildings@[k1],
                #[trigger] self.buildings@[k2],
                MIN_CLEARANCE as int,
            ) by {
                lemma_scale_keeps_clearance(
                    entry.buildings@[k1],
                    entry.buildings@[k2],
                    self.buildings@[k1],
                    self.buildings@[k2],
                    s as int,
                );
            }
        }
        let ghost after_scale = *self;
        self.important_buildings.clear();
        let mut j: usize = 0;
        while j < n
            invariant
                n == self.buildings@.len(),
                j <= n,
                self.important_buildings@.len() == spec_important_count(
                    self.buildings@.take(j as int),
                ),
                *self == (CityGenerator {
                    important_buildings: self.important_buildings,
                    ..after_scale
                }),
                forall|k: int|
                    0 <= k < n ==> spec_wf_building(#[trigger] self.buildings@[k]),
                forall|k1: int, k2: int|
                    0 <= k1 < k2 < n ==> !spec_overlaps(
                        #[trigger] self.buildings@[k1],
                        #[trigger] self.buildings@[k2],
                        MIN_CLEARANCE as int,
                    ),
            decreases n - j,
        {
            proof {
                assert(self.buildings@.take(j + 1).drop_last() =~= self.buildings@.take(j as int));
                assert(self.buildings@.take(j + 1).last() == self.buildings@[j as int]);
            }
            let bj = self.buildings[j];
            if bj.is_important {
                self.important_buildings.push((bj.x, bj.y));
            }
            j = j + 1;
        }
        proof {
            assert(self.buildings@.take(n as int) =~= self.buildings@);
        }
        let ghost scaled_state = *self;
        let mut i2: usize = 0;
        while i2 < n
            invariant
                n == self.buildings@.len(),
                2 <= s <= 100,
                self.buildings == scaled_state.buildings,
                *self == (CityGenerator { is_something: self.is_something, ..scaled_state }),
                forall|k: int|
                    0 <= k < n ==> spec_wf_building(#[trigger] self.buildings@[k]),
                forall|k1: int, k2: int|
                    0 <= k1 < k2 < n ==> !spec_overlaps(
                        #[trigger] self.buildings@[k1],
                        #[trigger] self.buildings@[k2],
                        MIN_CLEARANCE as int,
                    ),
                i2 == 0 ==> self.is_something@ == Map::<(int, int), BuildingElement>::empty(),
                forall|k: int|
                    0 <= k < n ==> !self.is_something@.contains_key(
                        (((#[trigger] self.buildings@[k]).door).0 as int,
                        (self.buildings@[k].door).1 as int),
                    ),
            decreases n - i2,
        {
            let b = self.buildings[i2];
            let ghost pre = *self;
            self.register_building(b);
            proof {
                assert forall|k: int| 0 <= k < n implies !self.is_something@.contains_key(
                    (((#[trigger] self.buildings@[k]).door).0 as int,
                    (self.buildings@[k].door).1 as int),
                ) by {
                    let bk = self.buildings@[k];
                    if k != i2 {
                        if k < i2 {
                            lemma_clearance_monotone(bk, b, 1, MIN_CLEARANCE as int);
                        } else {
                            lemma_clearance_monotone(bk, b, 1, MIN_CLEARANCE as int);
                        }
                        lemma_door_in_box(bk);
                        lemma_clearance_separates(bk, b, (bk.door.0 as int, bk.door.1 as int));
                    }
                }
            }
            i2 = i2 + 1;
        }
        let ghost reg_state = *self;
        let rn = self.roads.len();
        let mut k: usize = 0;
        while k < rn
            invariant
                2 <= s <= 100,
                rn == self.roads@.len(),
                rn == entry.roads@.len(),
                entry.wf(),
                n == self.buildings@.len(),
                n == entry.buildings@.len(),
                n >= 1,
                *self == (CityGenerator {
                    roads: self.roads,
                    is_something: self.is_something,
                    ..reg_state
                }),
                self.min_x == entry.min_x * s && self.min_y == entry.min_y * s && self.max_x
                    == entry.max_x * s && self.max_y == entry.max_y * s,
                old_min_x == entry.min_x && old_min_y == entry.min_y && old_max_x == entry.max_x
                    && old_max_y == entry.max_y,
                -2_000_020 <= entry.min_x <= entry.max_x <= 2_000_020,
                -2_000_020 <= entry.min_y <= entry.max_y <= 2_000_020,
                -300_000_000 <= self.min_x <= self.max_x <= 300_000_000,
                -300_000_000 <= self.min_y <= self.max_y <= 300_000_000,
                forall|k2: int|
                    0 <= k2 < n ==> spec_scaled_of(
                        entry.buildings@[k2],
                        #[trigger] self.buildings@[k2],
                        s as int,
                    ),
                forall|k2: int|
                    0 <= k2 < n ==> {
                        let d = (#[trigger] self.buildings@[k2]).door;
                        self.is_something@.contains_key((d.0 as int, d.1 as int))
                            ==> self.is_something@[(d.0 as int, d.1 as int)]
                            == BuildingElement::Road
                    },
                forall|k2: int|
                    0 <= k2 < k ==> self.spec_road_ok((#[trigger] self.roads@[k2])@),
                forall|k2: int|
                    k <= k2 < rn ==> #[trigger] self.roads@[k2] == entry.roads@[k2],
            decreases rn - k,
        {
            let ghost pre = *self;
            let rl = self.roads[k].len();
            if rl >= 2 {
                proof {
                    assert(entry.spec_road_ok(entry.roads@[k as int]@));
                    assert(self.roads@[k as int] == entry.roads@[k as int]);
                }
                let scaled = scale_road(
                    &self.roads[k],
                    s,
                    old_min_x,
                    old_max_x,
                    old_min_y,
                    old_max_y,
                );
                proof {
                    assert forall|m: int| 0 <= m < scaled@.len() implies valid_coord(
                        ((#[trigger] scaled@[m]).0 as int, scaled@[m].1 as int),
                    ) by {
                    }
                }
                self.mark_road(&scaled);
                self.roads.set(k, scaled);
                proof {
                    let oldroad = entry.roads@[k as int]@;
                    let i0 = choose|i0: int|
                        0 <= i0 < entry.buildings@.len() && oldroad[0]
                            == #[trigger] entry.buildings@[i0].door;
                    assert(spec_scaled_of(entry.buildings@[i0], self.buildings@[i0], s as int));
                    assert(scaled@[0] == self.buildings@[i0].door);
                    assert forall|k2: int| 0 <= k2 < k + 1 implies self.spec_road_ok(
                        (#[trigger] self.roads@[k2])@,
                    ) by {
                        if k2 < k {
                            lemma_road_ok_stable(pre, *self, self.roads@[k2]@);
                        }
                    }
                }
            } else {
                self.roads.set(k, Vec::new());
                proof {
                    assert forall|k2: int| 0 <= k2 < k + 1 implies self.spec_road_ok(
                        (#[trigger] self.roads@[k2])@,
                    ) by {
                        if k2 < k {
                            lemma_road_ok_stable(pre, *self, self.roads@[k2]@);
                        } else {
                            assert(self.roads@[k2]@.len() == 0);
                        }
                    }
                }
            }
            k = k + 1;
        }
        proof {
            assert forall|k2: int| 0 <= k2 < n implies {
                let b = #[trigger] self.buildings@[k2];
                self.min_x <= b.x - CITY_BOUNDS_OFFSET && b.x + b.width + CITY_BOUNDS_OFFSET
                    <= self.max_x && self.min_y <= b.y - CITY_BOUNDS_OFFSET && b.y + b.height
                    + CITY_BOUNDS_OFFSET <= self.max_y
            } by {
                let a = entry.buildings@[k2];
                let b = self.buildings@[k2];
                assert(entry.min_x * s <= a.x * s - 20 && a.x * s + a.width * s + 20 <= entry.max_x
                    * s && entry.min_y * s <= a.y * s - 20 && a.y * s + a.height * s + 20
                    <= entry.max_y * s) by (nonlinear_arith)
                    requires
                        entry.min_x <= a.x - 20,
                        a.x + a.width + 20 <= entry.max_x,
                        entry.min_y <= a.y - 20,
                        a.y + a.height + 20 <= entry.max_y,
                        1 <= s <= 100,
                ;
            }
        }
    }
}



/// Manhattan distance from a building's corner to a point.
pub open spec fn spec_corner_distance(b: Building, px: int, py: int) -> int {
    (if b.x >= px { b.x - px } else { px - b.x }) + (if b.y >= py { b.y - py } else { py - b.y })
}

impl CityGenerator {
    /// Index of the important building whose corner is nearest to
    /// `(px, py)` by Manhattan distance; earlier buildings win ties.
    fn nearest_important(&self, px: i64, py: i64) -> (r: usize)
        requires
            self.wf(),
            self.has_important(),
            -CITY_COORD_LIMIT <= px <= CITY_COORD_LIMIT,
            -CITY_COORD_LIMIT <= py <= CITY_COORD_LIMIT,
        ensures
            r < self.buildings@.len(),
            self.buildings@[r as int].is_important,
            forall|j: int|
                0 <= j < self.buildings@.len() && (#[trigger] self.buildings@[j]).is_important
                    ==> spec_corner_distance(self.buildings@[r as int], px as int, py as int)
                    <= spec_corner_distance(self.buildings@[j], px as int, py as int),
    {
        let len = self.buildings.len();
        let mut best: usize = 0;
        let mut found = false;
        let mut best_dist: i64 = 0;
        let mut j: usize = 0;
        while j < len
            invariant
                self.wf(),
                len == self.buildings@.len(),
                -CITY_COORD_LIMIT <= px <= CITY_COORD_LIMIT,
                -CITY_COORD_LIMIT <= py <= CITY_COORD_LIMIT,
                j <= len,
                !found ==> forall|k: int|
                    0 <= k < j ==> !(#[trigger] self.buildings@[k]).is_important,
                found ==> best < j && self.buildings@[best as int].is_important && best_dist
                    == spec_corner_distance(self.buildings@[best as int], px as int, py as int),
                found ==> forall|k: int|
                    0 <= k < j && (#[trigger] self.buildings@[k]).is_important ==> best_dist
                        <= spec_corner_distance(self.buildings@[k], px as int, py as int),
            decreases len - j,
        {
            let b = self.buildings[j];
            if b.is_important {
                let dx = if b.x >= px {
                    b.x - px
                } else {
                    px - b.x
                };
                let dy = if b.y >= py {
                    b.y - py
                } else {
                    py - b.y
                };
                let d = dx + dy;
                if !found || d < best_dist {
                    best = j;
                    best_dist = d;
                    found = true;
                }
            }
            j = j + 1;
        }
        proof {
            if !found {
                let w = choose|i: int|
                    0 <= i < self.buildings@.len() && (#[trigger] self.buildings@[i]).is_important;
                assert(!self.buildings@[w].is_important);
            }
        }
        best
    }

    /// Whether any cell on the candidate's outline is already occupied;
    /// such a candidate is rejected like an overlapping one.
    fn border_blocked(&self, b: &Building) -> (r: bool)
        requires
            spec_wf_building(*b),
    {
        let mut blocked = false;
        let mut xo: i64 = 0;
        while xo <= b.width
            invariant
                spec_wf_building(*b),
                0 <= xo <= b.width + 1,
            decreases b.width + 1 - xo,
        {
            if self.is_something.is_occupied(b.x + xo, b.y) || self.is_something.is_occupied(
                b.x + xo,
                b.y + b.height,
            ) {
                blocked = true;
            }
            xo = xo + 1;
        }
        let mut yo: i64 = 0;
        while yo <= b.height
            invariant
                spec_wf_building(*b),
                0 <= yo <= b.height + 1,
            decreases b.height + 1 - yo,
        {
            if self.is_something.is_occupied(b.x, b.y + yo) || self.is_something.is_occupied(
                b.x + b.width,
                b.y + yo,
            ) {
                blocked = true;
            }
            yo = yo + 1;
        }
        blocked
    }

    /// Commit an accepted candidate: register it, widen the borders,
    /// append it and connect it to `target` by a road if one is found.
    #[verifier::rlimit(100)]
    fn commit_building(&mut self, candidate: Building, target: Building)
        requires
            old(self).wf(),
            old(self).has_important(),
            spec_wf_building(candidate),
            spec_wf_building(target),
            old(self).buildings@.len() >= 1,
            old(self).buildings@.len() < 1_000_000,
            candidate.id == old(self).buildings@.len(),
            forall|k: int|
                0 <= k < old(self).buildings@.len() ==> !spec_overlaps(
                    #[trigger] old(self).buildings@[k],
                    candidate,
                    REGULAR_CLEARANCE as int,
                ),
        ensures
            final(self).wf(),
            spec_same_config(*final(self), *old(self)),
            final(self).has_important(),
            final(self).buildings@.len() == old(self).buildings@.len() + 1,
            final(self).roads@.len() == old(self).roads@.len() + 1,
            final(self).important_buildings == old(self).important_buildings,
    {
        let ghost pre = *self;
        self.register_building(candidate);
        proof {
            assert forall|k: int| 0 <= k < self.buildings@.len() implies {
                let d = (#[trigger] self.buildings@[k]).door;
                self.is_something@.contains_key((d.0 as int, d.1 as int))
                    ==> self.is_something@[(d.0 as int, d.1 as int)] == BuildingElement::Road
            } by {
                let bk = self.buildings@[k];
                lemma_clearance_monotone(bk, candidate, 1, REGULAR_CLEARANCE as int);
                lemma_door_in_box(bk);
                lemma_clearance_separates(bk, candidate, (bk.door.0 as int, bk.door.1 as int));
            }
        }
        self.update_borders_from_new_building(candidate);
        self.buildings.push(candidate);
        proof {
            assert forall|k1: int, k2: int| 0 <= k1 < k2 < self.buildings@.len()
                implies !spec_overlaps(
                #[trigger] self.buildings@[k1],
                #[trigger] self.buildings@[k2],
                MIN_CLEARANCE as int,
            ) by {
                if k2 == self.buildings@.len() - 1 {
                    lemma_clearance_monotone(
                        self.buildings@[k1],
                        candidate,
                        MIN_CLEARANCE as int,
                        REGULAR_CLEARANCE as int,
                    );
                }
            }
            assert forall|k: int| 0 <= k < self.roads@.len() implies self.spec_road_ok(
                (#[trigger] self.roads@[k])@,
            ) by {
                lemma_road_ok_stable(pre, *self, self.roads@[k]@);
            }
        }
        proof {
            let w = choose|i: int|
                0 <= i < old(self).buildings@.len() && (#[trigger] old(
                    self,
                ).buildings@[i]).is_important;
            assert(self.buildings@[w].is_important);
        }
        self.connect_road(candidate, target);
    }

    /// Search a road from the freshly placed building's door to the
    /// target and record it; a failed search records an empty road.
    #[verifier::rlimit(100)]
    fn connect_road(&mut self, candidate: Building, target: Building)
        requires
            old(self).wf(),
            spec_wf_building(candidate),
            spec_wf_building(target),
            old(self).buildings@.len() >= 1,
            old(self).buildings@[old(self).buildings@.len() - 1] == candidate,
        ensures
            final(self).wf(),
            spec_same_config(*final(self), *old(self)),
            final(self).buildings == old(self).buildings,
            final(self).roads@.len() == old(self).roads@.len() + 1,
            final(self).important_buildings == old(self).important_buildings,
    {
        let found = self.find_path(candidate.door, &target);
        let ghost pre2 = *self;
        match found {
            Some(path) => {
                proof {
                    assert forall|m: int| 0 <= m < path@.len() implies valid_coord(
                        ((#[trigger] path@[m]).0 as int, path@[m].1 as int),
                    ) by {
                        if m == 0 {
                            assert(path@[0] == candidate.door);
                            lemma_door_in_box(candidate);
                        }
                    }
                }
                self.mark_road(&path);
                proof {
                    assert forall|k: int| 0 <= k < self.buildings@.len() implies {
                        let d = (#[trigger] self.buildings@[k]).door;
                        self.is_something@.contains_key((d.0 as int, d.1 as int))
                            ==> self.is_something@[(d.0 as int, d.1 as int)]
                            == BuildingElement::Road
                    } by {
                        assert(pre2.buildings@[k] == self.buildings@[k]);
                    }
                }
                let ghost pre3 = *self;
                self.roads.push(path);
                proof {
                    assert forall|k: int| 0 <= k < self.roads@.len() implies self.spec_road_ok(
                        (#[trigger] self.roads@[k])@,
                    ) by {
                        if k < self.roads@.len() - 1 {
                            lemma_road_ok_stable(pre3, *self, self.roads@[k]@);
                        } else {
                            assert(self.roads@[k]@ == path@);
                            assert(path@[0] == self.buildings@[self.buildings@.len() - 1].door);
                            lemma_door_in_box(candidate);
                            assert(self.in_bounds((path@[0].0 as int, path@[0].1 as int)));
                        }
                    }
                }
            },
            None => {
                let ghost pre3 = *self;
                self.roads.push(Vec::new());
                proof {
                    assert forall|k: int| 0 <= k < self.roads@.len() implies self.spec_road_ok(
                        (#[trigger] self.roads@[k])@,
                    ) by {
                        if k < self.roads@.len() - 1 {
                            lemma_road_ok_stable(pre3, *self, self.roads@[k]@);
                        }
                    }
                }
            },
        }
    }

    /// One placement attempt: draw a candidate near a random existing
    /// building and, if it keeps its clearance and touches nothing,
    /// register it and connect it to the nearest important building.
    #[verifier::rlimit(100)]
    fn try_place_building(&mut self, remaining: i64, init_n: i64) -> (placed: bool)
        requires
            old(self).wf(),
            old(self).buildings@.len() >= 1,
            old(self).has_important(),
            old(self).buildings@.len() < 1_000_000,
            1 <= remaining <= init_n <= 1_000_000,
        ensures
            final(self).wf(),
            spec_same_config(*final(self), *old(self)),
            final(self).has_important(),
            placed ==> final(self).buildings@.len() == old(self).buildings@.len() + 1,
            !placed ==> final(self).buildings@.len() == old(self).buildings@.len(),
            placed ==> final(self).roads@.len() == old(self).roads@.len() + 1,
            !placed ==> final(self).roads@.len() == old(self).roads@.len(),
            final(self).important_buildings == old(self).important_buildings,
    {
        let len = self.buildings.len();
        let bidx = gen_range_i64(&mut self.rng, 0, len as i64);
        let base = self.buildings[bidx as usize];
        let x_center = base.x + base.width / 2;
        let y_center = base.y + base.height / 2;
        let span = self.distance_hi - self.distance_lo;
        proof {
            assert(0 <= span * remaining <= 100_000_000_000) by (nonlinear_arith)
                requires
                    1 <= span <= 100_000,
                    1 <= remaining <= 1_000_000,
            ;
            assert(0 <= span * remaining / (init_n as int) <= span) by (nonlinear_arith)
                requires
                    1 <= span <= 100_000,
                    1 <= remaining <= init_n,
                    1 <= init_n <= 1_000_000,
            ;
        }
        let distance = span * remaining / init_n + self.distance_lo;
        let spawn_x = if gen_bool(&mut self.rng) {
            x_center + distance
        } else {
            x_center - distance
        };
        let spawn_y = if gen_bool(&mut self.rng) {
            y_center + distance
        } else {
            y_center - distance
        };
        let width = gen_range_i64(&mut self.rng, self.width_lo, self.width_hi);
        let height = gen_range_i64(&mut self.rng, self.height_lo, self.height_hi);
        if !(spawn_x >= -CITY_COORD_LIMIT && spawn_x + width <= CITY_COORD_LIMIT && spawn_y
            >= -CITY_COORD_LIMIT && spawn_y + height <= CITY_COORD_LIMIT) {
            return false;
        }
        let candidate = Building::with_random_door(
            &mut self.rng,
            spawn_x,
            spawn_y,
            width,
            height,
            len,
        );
        let mut hit = false;
        let mut j: usize = 0;
        while j < len
            invariant
                self.wf(),
                len == self.buildings@.len(),
                spec_wf_building(candidate),
                j <= len,
                !hit ==> forall|k: int|
                    0 <= k < j ==> !spec_overlaps(
                        #[trigger] self.buildings@[k],
                        candidate,
                        REGULAR_CLEARANCE as int,
                    ),
            decreases len - j,
        {
            if self.buildings[j].overlaps(&candidate, REGULAR_CLEARANCE) {
                hit = true;
            }
            j = j + 1;
        }
        if !hit {
            hit = self.border_blocked(&candidate);
        }
        if hit {
            return false;
        }
        let nearest = self.nearest_important(spawn_x, spawn_y);
        let target = self.buildings[nearest];
        self.commit_building(candidate, target);
        true
    }

    /// Place `n` regular buildings, each spawned near a random existing
    /// building at a distance that shrinks as fewer remain, and connect
    /// each to its nearest important building by a road. Errs, leaving
    /// a well-formed partial city, once the retry budget is spent.
    fn generate_buildings(&mut self, n: usize) -> (r: Result<(), WorldGenError>)
        requires
            old(self).wf(),
            old(self).buildings@.len() >= 1,
            old(self).has_important(),
            old(self).buildings@.len() + n <= 1_000_000,
        ensures
            final(self).wf(),
            spec_same_config(*final(self), *old(self)),
            final(self).has_important(),
            final(self).important_buildings == old(self).important_buildings,
            match r {
                Ok(()) => {
                    &&& final(self).buildings@.len() == old(self).buildings@.len() + n
                    &&& final(self).roads@.len() == old(self).roads@.len() + n
                },
                Err(e) => e == WorldGenError::PlacementExhausted,
            },
            n == 0 ==> r matches Ok(()),
    {
        if n == 0 {
            return Ok(());
        }
        let init_n = n;
        let mut placed: usize = 0;
        let mut attempts: u64 = 0;
        let budget: u64 = (n as u64) * MAX_PLACEMENT_ATTEMPTS + MAX_PLACEMENT_ATTEMPTS;
        while placed < n
            invariant
                self.wf(),
                spec_same_config(*self, *old(self)),
                self.has_important(),
                self.buildings@.len() == old(self).buildings@.len() + placed,
                self.roads@.len() == old(self).roads@.len() + placed,
                self.important_buildings == old(self).important_buildings,
                placed <= n,
                n == init_n,
                1 <= init_n <= 1_000_000,
                old(self).buildings@.len() + n <= 1_000_000,
                budget == (n as u64) * MAX_PLACEMENT_ATTEMPTS + MAX_PLACEMENT_ATTEMPTS,
                attempts <= budget,
            decreases budget - attempts,
        {
            if attempts >= budget {
                return Err(WorldGenError::PlacementExhausted);
            }
            attempts = attempts + 1;
            let ok = self.try_place_building((n - placed) as i64, init_n as i64);
            if ok {
                placed = placed + 1;
            }
        }
        Ok(())
    }
}




impl CityGenerator {
    /// The run parameters `generate` accepts for this configuration.
    pub open spec fn spec_valid_generate(self, normal: int, important: int, scale: int) -> bool {
        &&& 1 <= scale <= 100
        &&& 1 <= important
        &&& self.important_buildings_max_distance as int / (2 * scale) >= 1
        &&& normal + important <= 1_000_000
    }

    /// Generate a whole city on a fresh generator: the important
    /// buildings first, linked pairwise, rescaled, then the regular
    /// buildings, each connected to its nearest important building.
    ///
    /// Errs with `InvalidCityParams`, leaving the generator untouched,
    /// exactly when the run parameters are out of range; errs with
    /// `PlacementExhausted`, leaving a well-formed partial city, when a
    /// placement runs out of retries.
    pub fn generate(
        &mut self,
        normal_buildings: usize,
        important_buildings: usize,
        important_building_scale: i64,
    ) -> (r: Result<(), WorldGenError>)
        requires
            old(self).wf(),
            old(self).is_fresh(),
        ensures
            final(self).wf(),
            spec_same_config(*final(self), *old(self)),
            match r {
                Ok(()) => {
                    &&& old(self).spec_valid_generate(
                        normal_buildings as int,
                        important_buildings as int,
                        important_building_scale as int,
                    )
                    &&& final(self).buildings@.len() == normal_buildings + important_buildings
                    &&& final(self).important_buildings@.len() == important_buildings
                    &&& final(self).roads@.len() == important_buildings * (important_buildings
                        - 1) + normal_buildings
                },
                Err(WorldGenError::InvalidCityParams) => {
                    &&& !old(self).spec_valid_generate(
                        normal_buildings as int,
                        important_buildings as int,
                        important_building_scale as int,
                    )
                    &&& *final(self) == *old(self)
                },
                Err(WorldGenError::PlacementExhausted) => old(self).spec_valid_generate(
                    normal_buildings as int,
                    important_buildings as int,
                    important_building_scale as int,
                ),
                Err(_) => false,
            },
            old(self).spec_valid_generate(
                normal_buildings as int,
                important_buildings as int,
                important_building_scale as int,
            ) && important_buildings == 1 && normal_buildings == 0 ==> r matches Ok(()),
    {
        if !(1 <= important_building_scale && important_building_scale <= 100) {
            return Err(WorldGenError::InvalidCityParams);
        }
        if important_buildings < 1 {
            return Err(WorldGenError::InvalidCityParams);
        }
        if self.important_buildings_max_distance / (2 * important_building_scale) < 1 {
            return Err(WorldGenError::InvalidCityParams);
        }
        if important_buildings > 1_000_000 || normal_buildings > 1_000_000 - important_buildings {
            return Err(WorldGenError::InvalidCityParams);
        }
        match self.generate_important_buildings(important_buildings, important_building_scale) {
            Ok(()) => (),
            Err(e) => { return Err(e) },
        }
        match self.generate_buildings(normal_buildings) {
            Ok(()) => (),
            Err(e) => { return Err(e) },
        }
        self.update_borders();
        Ok(())
    }
}

/// Law: a well-formed city keeps the guarantees the generator
/// advertises. No two building footprints, inflated by the minimum
/// clearance, intersect; no door cell is ever marked as a wall or an
/// interior (at most as a road); every road lies within the city
/// bounds, proceeds in unit axis steps, and starts at some building's
/// door; and the bounds contain every footprint with its margin.
pub proof fn lemma_city_guarantees(c: CityGenerator)
    requires
        c.wf(),
    ensures
        forall|i: int, j: int|
            0 <= i < j < c.buildings@.len() ==> !spec_overlaps(
                #[trigger] c.buildings@[i],
                #[trigger] c.buildings@[j],
                MIN_CLEARANCE as int,
            ),
        forall|i: int|
            0 <= i < c.buildings@.len() ==> {
                let d = (#[trigger] c.buildings@[i]).door;
                c.is_something@.contains_key((d.0 as int, d.1 as int))
                    ==> c.is_something@[(d.0 as int, d.1 as int)] == BuildingElement::Road
            },
        forall|k: int| 0 <= k < c.roads@.len() ==> c.spec_road_ok((#[trigger] c.roads@[k])@),
        forall|i: int|
            0 <= i < c.buildings@.len() ==> {
                let b = #[trigger] c.buildings@[i];
                c.min_x <= b.x - CITY_BOUNDS_OFFSET && b.x + b.width + CITY_BOUNDS_OFFSET
                    <= c.max_x && c.min_y <= b.y - CITY_BOUNDS_OFFSET && b.y + b.height
                    + CITY_BOUNDS_OFFSET <= c.max_y
            },
{
}


} // verus!
