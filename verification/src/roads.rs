//! Roads, their two sides, and perimeters: closed walks along road sides that
//! bound a region of the map.

use vstd::prelude::*;

verus! {

/// Identifies a road of the map.
#[derive(Clone, Copy, Debug, PartialEq, Eq, PartialOrd, Ord, Hash, Structural)]
pub struct RoadID(pub usize);

/// One of the two sides of a road.
#[derive(Clone, Copy, Debug, PartialEq, Eq, PartialOrd, Ord, Hash, Structural)]
pub enum SideOfRoad {
    Right,
    Left,
}

/// One side of one road.
#[derive(Clone, Copy, Debug, PartialEq, Eq, PartialOrd, Ord, Hash, Structural)]
pub struct RoadSideID {
    pub road: RoadID,
    pub side: SideOfRoad,
}

/// The side opposite to `side`.
pub open spec fn flip(side: SideOfRoad) -> SideOfRoad {
    match side {
        SideOfRoad::Right => SideOfRoad::Left,
        SideOfRoad::Left => SideOfRoad::Right,
    }
}

/// The other side of the same road.
pub open spec fn opposite(id: RoadSideID) -> RoadSideID {
    RoadSideID { road: id.road, side: flip(id.side) }
}

impl RoadSideID {
    /// The other side of the same road.
    pub fn other_side(&self) -> (r: RoadSideID)
        ensures
            r == opposite(*self),
    {
        let side = match self.side {
            SideOfRoad::Right => SideOfRoad::Left,
            SideOfRoad::Left => SideOfRoad::Right,
        };
        RoadSideID { road: self.road, side }
    }
}

/// What a perimeter is: the road sides walked, in order, and the roads that
/// lie wholly inside.
pub struct PerimeterView {
    pub roads: Seq<RoadSideID>,
    pub interior: Seq<RoadID>,
}

impl PerimeterView {
    /// Some road side of this perimeter lies on `road`.
    pub open spec fn touches(self, road: RoadID) -> bool {
        exists|k: int| 0 <= k < self.roads.len() && (#[trigger] self.roads[k]).road == road
    }

    /// Two perimeters are adjacent when they run along a common road, on
    /// whichever side.
    pub open spec fn adjacent(self, other: PerimeterView) -> bool {
        exists|k: int| 0 <= k < self.roads.len() && other.touches((#[trigger] self.roads[k]).road)
    }

    /// `side` is walked by the perimeter, or lies on a road inside it.
    pub open spec fn covers(self, side: RoadSideID) -> bool {
        self.interior.contains(side.road) || self.roads.contains(side)
    }

    /// Every road side of `other` is covered by this perimeter.
    pub open spec fn encloses(self, other: PerimeterView) -> bool {
        forall|k: int| 0 <= k < other.roads.len() ==> self.covers(#[trigger] other.roads[k])
    }
}

/// A closed walk along road sides, with the roads it swallowed when it was
/// merged from smaller ones.
#[derive(Debug, PartialEq, Eq)]
pub struct Perimeter {
    pub roads: Vec<RoadSideID>,
    pub interior: Vec<RoadID>,
}

impl View for Perimeter {
    type V = PerimeterView;

    open spec fn view(&self) -> PerimeterView {
        PerimeterView { roads: self.roads@, interior: self.interior@ }
    }
}

impl Clone for Perimeter {
    fn clone(&self) -> (r: Perimeter)
        ensures
            r@ == self@,
    {
        let mut roads: Vec<RoadSideID> = Vec::new();
        let mut i: usize = 0;
        while i < self.roads.len()
            invariant
                i <= self.roads.len(),
                roads@ == self.roads@.take(i as int),
            decreases self.roads.len() - i,
        {
            roads.push(self.roads[i]);
            i += 1;
            assert(self.roads@.take(i as int) == self.roads@.take(i - 1).push(self.roads@[i - 1]));
        }
        assert(self.roads@.take(i as int) == self.roads@);
        let mut interior: Vec<RoadID> = Vec::new();
        let mut j: usize = 0;
        while j < self.interior.len()
            invariant
                j <= self.interior.len(),
                interior@ == self.interior@.take(j as int),
            decreases self.interior.len() - j,
        {
            interior.push(self.interior[j]);
            j += 1;
            assert(self.interior@.take(j as int) == self.interior@.take(j - 1).push(
                self.interior@[j - 1],
            ));
        }
        assert(self.interior@.take(j as int) == self.interior@);
        Perimeter { roads, interior }
    }
}

impl Perimeter {
    /// Whether `side` is one of the road sides walked.
    pub fn has_side(&self, side: RoadSideID) -> (r: bool)
        ensures
            r == self@.roads.contains(side),
    {
        let mut i: usize = 0;
        while i < self.roads.len()
            invariant
                i <= self.roads.len(),
                forall|k: int| 0 <= k < i ==> self.roads@[k] != side,
            decreases self.roads.len() - i,
        {
            if self.roads[i] == side {
                return true;
            }
            i += 1;
        }
        false
    }

    /// Whether some road side walked lies on `road`.
    pub fn touches_road(&self, road: RoadID) -> (r: bool)
        ensures
            r == self@.touches(road),
    {
        let mut i: usize = 0;
        while i < self.roads.len()
            invariant
                i <= self.roads.len(),
                forall|k: int| 0 <= k < i ==> self.roads@[k].road != road,
            decreases self.roads.len() - i,
        {
            if self.roads[i].road == road {
                return true;
            }
            i += 1;
        }
        false
    }

    /// Whether `road` lies inside the perimeter.
    pub fn has_interior(&self, road: RoadID) -> (r: bool)
        ensures
            r == self@.interior.contains(road),
    {
        let mut i: usize = 0;
        while i < self.interior.len()
            invariant
                i <= self.interior.len(),
                forall|k: int| 0 <= k < i ==> self.interior@[k] != road,
            decreases self.interior.len() - i,
        {
            if self.interior[i] == road {
                return true;
            }
            i += 1;
        }
        false
    }

    /// Does this perimeter completely enclose the other?
    pub fn contains(&self, other: &Perimeter) -> (r: bool)
        ensures
            r == self@.encloses(other@),
    {
        let mut i: usize = 0;
        while i < other.roads.len()
            invariant
                i <= other.roads.len(),
                forall|k: int| 0 <= k < i ==> self@.covers(#[trigger] other.roads@[k]),
            decreases other.roads.len() - i,
        {
            let side = other.roads[i];
            if !(self.has_interior(side.road) || self.has_side(side)) {
                assert(!self@.covers(other@.roads[i as int]));
                return false;
            }
            i += 1;
        }
        true
    }
}

/// A region of the map bounded by a perimeter.
#[derive(Debug, PartialEq, Eq)]
pub struct Block {
    pub perimeter: Perimeter,
}

impl View for Block {
    type V = PerimeterView;

    open spec fn view(&self) -> PerimeterView {
        self.perimeter@
    }
}

impl Clone for Block {
    fn clone(&self) -> (r: Block)
        ensures
            r@ == self@,
    {
        Block { perimeter: self.perimeter.clone() }
    }
}

} // verus!
