//! A sparse grid over the plane recording what, if anything, occupies
//! each coordinate.
//!
//! The grid is backed by a `HashMap` keyed by a single integer that
//! encodes both coordinates, so that the well-specified primitive-key
//! model of the standard map applies. Its mathematical view is a
//! `Map<(int, int), BuildingElement>` over the coordinates themselves.
use vstd::prelude::*;

use std::collections::HashMap;

use crate::concrete_cell::BuildingElement;

verus! {

/// Coordinates this grid can address; comfortably wider than any city.
pub const COORD_BOUND: i64 = 0x4000_0000;

pub open spec fn valid_coord(p: (int, int)) -> bool {
    -COORD_BOUND <= p.0 < COORD_BOUND && -COORD_BOUND <= p.1 < COORD_BOUND
}

/// The packed key of a coordinate pair.
pub open spec fn spec_encode(p: (int, int)) -> int {
    (p.0 + COORD_BOUND) * 0x1_0000_0000 + (p.1 + COORD_BOUND)
}

pub proof fn lemma_encode_injective(p1: (int, int), p2: (int, int))
    requires
        valid_coord(p1),
        valid_coord(p2),
        spec_encode(p1) == spec_encode(p2),
    ensures
        p1 == p2,
{
    assert((p1.0 - p2.0) * 0x1_0000_0000 == p2.1 - p1.1) by (nonlinear_arith)
        requires
            spec_encode(p1) == spec_encode(p2),
    ;
}

/// The occupancy map of a city: which coordinate holds which building
/// part or road.
#[derive(Debug)]
pub struct Occupancy {
    cells: HashMap<u64, BuildingElement>,
}

impl View for Occupancy {
    type V = Map<(int, int), BuildingElement>;

    closed spec fn view(&self) -> Map<(int, int), BuildingElement> {
        Map::new(
            |p: (int, int)| valid_coord(p) && self.cells@.contains_key(spec_encode(p) as u64),
            |p: (int, int)| self.cells@[spec_encode(p) as u64],
        )
    }
}

/// The packed key of a coordinate pair, as stored in the backing map.
pub(crate) fn encode_key(x: i64, y: i64) -> (k: u64)
    requires
        valid_coord((x as int, y as int)),
    ensures
        k == spec_encode((x as int, y as int)),
{
    (x + COORD_BOUND) as u64 * 0x1_0000_0000u64 + (y + COORD_BOUND) as u64
}

impl Occupancy {
    /// An empty grid.
    pub fn new() -> (r: Self)
        ensures
            r@ == Map::<(int, int), BuildingElement>::empty(),
    {
        let r = Occupancy { cells: HashMap::new() };
        proof {
            assert(r@ =~= Map::<(int, int), BuildingElement>::empty());
        }
        r
    }

    fn encode(x: i64, y: i64) -> (k: u64)
        requires
            valid_coord((x as int, y as int)),
        ensures
            k == spec_encode((x as int, y as int)),
    {
        encode_key(x, y)
    }

    /// Record `e` at `(x, y)`, replacing whatever was there.
    pub fn set(&mut self, x: i64, y: i64, e: BuildingElement)
        requires
            valid_coord((x as int, y as int)),
        ensures
            final(self)@ == old(self)@.insert((x as int, y as int), e),
    {
        let k = Self::encode(x, y);
        self.cells.insert(k, e);
        proof {
            assert forall|p: (int, int)| #[trigger] valid_coord(p) implies
                (spec_encode(p) == spec_encode((x as int, y as int)) <==> p == (x as int, y as int)) by {
                if spec_encode(p) == spec_encode((x as int, y as int)) {
                    lemma_encode_injective(p, (x as int, y as int));
                }
            }
            assert(self@ =~= old(self)@.insert((x as int, y as int), e));
        }
    }

    /// Free the cell at `(x, y)`.
    pub fn unset(&mut self, x: i64, y: i64)
        requires
            valid_coord((x as int, y as int)),
        ensures
            final(self)@ == old(self)@.remove((x as int, y as int)),
    {
        let k = Self::encode(x, y);
        self.cells.remove(&k);
        proof {
            assert forall|p: (int, int)| #[trigger] valid_coord(p) implies
                (spec_encode(p) == spec_encode((x as int, y as int)) <==> p == (x as int, y as int)) by {
                if spec_encode(p) == spec_encode((x as int, y as int)) {
                    lemma_encode_injective(p, (x as int, y as int));
                }
            }
            assert(self@ =~= old(self)@.remove((x as int, y as int)));
        }
    }

    /// What stands at `(x, y)`, if anything.
    pub fn get(&self, x: i64, y: i64) -> (r: Option<BuildingElement>)
        requires
            valid_coord((x as int, y as int)),
        ensures
            match r {
                Some(e) => self@.contains_key((x as int, y as int))
                    && e == self@[(x as int, y as int)],
                None => !self@.contains_key((x as int, y as int)),
            },
    {
        let k = Self::encode(x, y);
        match self.cells.get(&k) {
            Some(e) => Some(*e),
            None => None,
        }
    }

    /// Whether anything stands at `(x, y)`.
    pub fn is_occupied(&self, x: i64, y: i64) -> (r: bool)
        requires
            valid_coord((x as int, y as int)),
        ensures
            r == self@.contains_key((x as int, y as int)),
    {
        self.cells.contains_key(&Self::encode(x, y))
    }

    /// Forget everything.
    pub fn clear(&mut self)
        ensures
            final(self)@ == Map::<(int, int), BuildingElement>::empty(),
    {
        self.cells.clear();
        proof {
            assert(self@ =~= Map::<(int, int), BuildingElement>::empty());
        }
    }
}

} // verus!
