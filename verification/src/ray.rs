//! The half-line of positions that leaves a start in one direction.
use vstd::prelude::*;
use crate::position::{Cube, HexPosition, Vector};

verus! {

/// A cursor over a ray. A ray has no end: the cursor yields its head and moves
/// the head on by one step, for as long as the positions are representable.
#[derive(Clone, Copy, PartialEq, Eq, Structural, PartialOrd, Ord)]
pub struct RayIterator {
    next: HexPosition,
    vector: Vector,
}

impl RayIterator {
    /// The position that comes next.
    pub closed spec fn head(self) -> Cube {
        self.next@
    }

    /// The displacement from each position of the ray to the one after it.
    pub closed spec fn step(self) -> Cube {
        self.vector@
    }

    /// The position that lies `k` steps past the head.
    pub open spec fn at(self, k: int) -> Cube {
        self.head().plus(self.step().times(k))
    }

    /// Yields the head and moves it on by one step. The new head must be
    /// representable.
    pub fn next(&mut self) -> (res: Option<HexPosition>)
        requires
            old(self).at(1).fits(),
        ensures
            res matches Some(p) && p@ == old(self).head(),
            final(self).head() == old(self).at(1),
            final(self).step() == old(self).step(),
    {
        let ret = self.next;
        self.next = self.next + self.vector;
        Some(ret)
    }
}

impl HexPosition {
    /// The ray that leaves this position in direction `direction mod 6`. This
    /// position is its first element.
    pub fn ray(&self, direction: u32) -> (it: RayIterator)
        ensures
            it.head() == self@,
            it.step() == Cube::unit(direction as int % 6),
    {
        RayIterator { next: *self, vector: Vector::unit(direction) }
    }

    /// The six rays that leave this position, in the canonical order of the
    /// directions.
    pub fn rays(&self) -> (all: [RayIterator; 6])
        ensures
            forall|d: int|
                0 <= d < 6 ==> (#[trigger] all[d]).head() == self@ && all[d].step() == Cube::unit(
                    d,
                ),
    {
        [self.ray(0), self.ray(1), self.ray(2), self.ray(3), self.ray(4), self.ray(5)]
    }

    /// The two rays that leave this position in direction `direction mod 6` and
    /// in the opposite direction. Each has this position as its first element.
    pub fn bidirectional_ray(&self, direction: u32) -> (both: (RayIterator, RayIterator))
        ensures
            both.0.head() == self@,
            both.1.head() == self@,
            both.0.step() == Cube::unit(direction as int % 6),
            both.1.step() == Cube::unit((direction as int + 3) % 6),
            both.1.step() == both.0.step().times(-1),
    {
        (self.ray(direction), self.ray(direction % 6 + 3))
    }
}

} // verus!
