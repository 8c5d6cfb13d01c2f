//! The order of positions: by `x`, then by `y`, then by `z`.
use core::cmp::Ordering;
use vstd::prelude::*;
use vstd::std_specs::cmp::PartialOrdSpecImpl;
use crate::position::{Cube, HexPosition};

verus! {

/// How `a` stands to `b` in the order of the integers.
pub open spec fn compare_int(a: int, b: int) -> Ordering {
    if a < b {
        Ordering::Less
    } else if a > b {
        Ordering::Greater
    } else {
        Ordering::Equal
    }
}

/// How `a` stands to `b` in the lexicographic order of the triples
/// `(x, y, z)`.
pub open spec fn compare_cubes(a: Cube, b: Cube) -> Ordering {
    if a.x != b.x {
        compare_int(a.x, b.x)
    } else if a.y != b.y {
        compare_int(a.y, b.y)
    } else {
        compare_int(a.z, b.z)
    }
}

impl PartialOrd for HexPosition {
    fn partial_cmp(&self, other: &HexPosition) -> (r: Option<Ordering>) {
        if self.x < other.x {
            Some(Ordering::Less)
        } else if self.x > other.x {
            Some(Ordering::Greater)
        } else if self.y < other.y {
            Some(Ordering::Less)
        } else if self.y > other.y {
            Some(Ordering::Greater)
        } else if self.z < other.z {
            Some(Ordering::Less)
        } else if self.z > other.z {
            Some(Ordering::Greater)
        } else {
            Some(Ordering::Equal)
        }
    }
}

impl PartialOrdSpecImpl for HexPosition {
    open spec fn obeys_partial_cmp_spec() -> bool {
        true
    }

    open spec fn partial_cmp_spec(&self, other: &HexPosition) -> Option<Ordering> {
        Some(compare_cubes(self@, other@))
    }
}

} // verus!
