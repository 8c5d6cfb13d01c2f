//! The grid of all positions within a radius of the origin.
use vstd::prelude::*;
use crate::grid::Grid;
use crate::position::{Cube, HexPosition};
use crate::spiral::{lemma_spiral_members, spiral_positions, SpiralIterator};

verus! {

/// All positions within `radius` steps of the origin.
///
/// The backing array is the bounding rectangle of the grid in axial
/// coordinates, row by row: `x` and `z` each run from `-radius` to `radius`.
/// The corners of the rectangle lie outside the grid, and their slots stay
/// unused.
#[derive(PartialEq, Eq, PartialOrd, Ord)]
pub struct HexGrid {
    radius: u32,
    min_r: i32,
    min_u: i32,
    max_r: i32,
    max_u: i32,
}

/// Puts `other` in place of the target's value where `f` says so for the pair of
/// the two, and fills an empty target with `other`.
fn replace_if<T, F>(target: &mut Option<T>, other: T, f: F) where F: FnOnce(&T, &T) -> bool
    requires
        *old(target) matches Some(cur) ==> f.requires((&cur, &other)),
    ensures
        match *old(target) {
            Some(cur) => (f.ensures((&cur, &other), true) && *final(target) == Some(other)) || (
            f.ensures((&cur, &other), false) && *final(target) == Some(cur)),
            None => *final(target) == Some(other),
        },
{
    match target {
        Some(cur) => {
            if f(cur, &other) {
                *cur = other;
            }
        },
        None => {
            *target = Some(other);
        },
    }
}

impl Clone for HexGrid {
    /// A grid of the same radius.
    fn clone(&self) -> (g: HexGrid)
        ensures
            g == *self,
    {
        proof {
            use_type_invariant(self);
        }
        HexGrid {
            radius: self.radius,
            min_r: self.min_r,
            min_u: self.min_u,
            max_r: self.max_r,
            max_u: self.max_u,
        }
    }
}

impl HexGrid {
    #[verifier::type_invariant]
    closed spec fn inv(self) -> bool {
        &&& HexGrid::admits(self.radius)
        &&& self.min_r == -self.radius
        &&& self.max_r == self.radius
        &&& self.min_u == -self.radius
        &&& self.max_u == self.radius
    }

    /// The largest radius that a grid can have: 32767 where `usize` has 32
    /// bits, and 1073741823 where it has 64.
    pub open spec fn max_radius() -> nat {
        if usize::BITS == 32 {
            0x7fff
        } else {
            0x3fff_ffff
        }
    }

    /// Whether a grid of this radius can be had.
    pub open spec fn admits(radius: u32) -> bool {
        radius <= HexGrid::max_radius()
    }

    /// A grid of a radius can be had exactly where each position of its
    /// bounding rectangle is representable in 32 bits, and the number of its
    /// slots fits in `usize`.
    pub proof fn lemma_admits(radius: u32)
        ensures
            HexGrid::admits(radius) <==> 2 * radius <= i32::MAX && (2 * radius + 1) * (2 * radius
                + 1) <= usize::MAX,
    {
        let w: int = 2 * radius + 1;
        assert(usize::BITS == 32 || usize::BITS == 64);
        if usize::BITS == 32 {
            assert(w <= 0xffff ==> w * w <= 0xffff_ffff) by (nonlinear_arith)
                requires
                    0 <= w,
            ;
            assert(w >= 0x1_0001 ==> w * w > 0xffff_ffff) by (nonlinear_arith);
        } else {
            assert(w <= 0x7fff_ffff ==> w * w <= 0xffff_ffff_ffff_ffff) by (nonlinear_arith)
                requires
                    0 <= w,
            ;
        }
    }

    /// The radius of the grid.
    pub closed spec fn radius(&self) -> nat {
        self.radius as nat
    }

    /// The number of columns, and of rows, of the bounding rectangle.
    pub open spec fn width(&self) -> nat {
        2 * self.radius() + 1
    }

    /// The grid of all positions within `radius` steps of the origin.
    ///
    /// The bounding rectangle is found by a walk over the spiral of that
    /// radius.
    pub fn new(radius: u32) -> (g: HexGrid)
        requires
            HexGrid::admits(radius),
        ensures
            g.radius() == radius,
    {
        let mut min_r: Option<i32> = None;
        let mut min_u: Option<i32> = None;
        let mut max_r: Option<i32> = None;
        let mut max_u: Option<i32> = None;

        proof {
            HexGrid::lemma_admits(radius);
        }
        let ghost all = spiral_positions(Cube::origin(), radius as nat);
        let ghost mut seen: Seq<Cube> = Seq::empty();
        let mut it = HexPosition::origin().spiral_to_radius(radius);
        loop
            invariant
                it.limit() is Some,
                seen + it.remaining() == all,
                min_r is Some <==> seen.len() > 0,
                min_u is Some <==> seen.len() > 0,
                max_r is Some <==> seen.len() > 0,
                max_u is Some <==> seen.len() > 0,
                forall|i: int| 0 <= i < seen.len() ==> min_r.unwrap() <= (#[trigger] seen[i]).x,
                forall|i: int| 0 <= i < seen.len() ==> min_u.unwrap() <= (#[trigger] seen[i]).z,
                forall|i: int| 0 <= i < seen.len() ==> max_r.unwrap() >= (#[trigger] seen[i]).x,
                forall|i: int| 0 <= i < seen.len() ==> max_u.unwrap() >= (#[trigger] seen[i]).z,
                seen.len() > 0 ==> exists|i: int|
                    0 <= i < seen.len() && (#[trigger] seen[i]).x == min_r.unwrap(),
                seen.len() > 0 ==> exists|i: int|
                    0 <= i < seen.len() && (#[trigger] seen[i]).z == min_u.unwrap(),
                seen.len() > 0 ==> exists|i: int|
                    0 <= i < seen.len() && (#[trigger] seen[i]).x == max_r.unwrap(),
                seen.len() > 0 ==> exists|i: int|
                    0 <= i < seen.len() && (#[trigger] seen[i]).z == max_u.unwrap(),
            ensures
                seen == all,
            decreases it.remaining().len(),
        {
            let pos = match it.next() {
                Some(pos) => pos,
                None => {
                    assert(seen =~= seen + it.remaining());
                    break ;
                },
            };
            let (r, u): (i32, i32) = pos.as_axial();
            let ghost before = seen;
            proof {
                seen = seen.push(pos@);
                assert(seen + it.remaining() =~= all);
                assert(forall|i: int| 0 <= i < before.len() ==> seen[i] == before[i]);
                assert(seen[before.len() as int] == pos@);
            }
            replace_if(&mut min_r, r, |c: &i32, r: &i32| -> (b: bool)
                ensures
                    b == (*r < *c),
                { *r < *c });
            replace_if(&mut min_u, u, |c: &i32, r: &i32| -> (b: bool)
                ensures
                    b == (*r < *c),
                { *r < *c });
            replace_if(&mut max_r, r, |c: &i32, r: &i32| -> (b: bool)
                ensures
                    b == (*r > *c),
                { *r > *c });
            replace_if(&mut max_u, u, |c: &i32, r: &i32| -> (b: bool)
                ensures
                    b == (*r > *c),
                { *r > *c });
        }
        proof {
            lemma_bounding_rectangle(radius as nat);
            let east = Cube { x: radius as int, y: 0, z: -radius };
            let west = Cube { x: -radius, y: 0, z: radius as int };
            let e: int = choose|i: int| 0 <= i < all.len() && all[i] == east;
            let w: int = choose|i: int| 0 <= i < all.len() && all[i] == west;
            assert(seen[e] == east && seen[w] == west);
            assert forall|i: int| 0 <= i < seen.len() implies -radius <= (#[trigger] seen[i]).x
                <= radius && -radius <= seen[i].z <= radius by {
                assert(all.contains(seen[i]));
            }
        }
        HexGrid {
            min_r: min_r.unwrap_or(0),
            min_u: min_u.unwrap_or(0),
            max_r: max_r.unwrap_or(0),
            max_u: max_u.unwrap_or(0),
            radius,
        }
    }
}

impl Grid for HexGrid {
    type Iter = SpiralIterator;

    /// A position belongs to the grid where it lies at most `radius` steps from
    /// the origin.
    open spec fn member(&self, p: Cube) -> bool {
        p.distance(Cube::origin()) <= self.radius()
    }

    /// The array holds the whole bounding rectangle.
    open spec fn slots(&self) -> nat {
        self.width() * self.width()
    }

    /// The slots run along `x` first: one row of the rectangle for each `z`.
    open spec fn slot_of(&self, p: Cube) -> nat {
        ((p.x + self.radius()) + (p.z + self.radius()) * self.width()) as nat
    }

    /// The column of a slot gives `x`, and its row gives `z`.
    open spec fn position_at(&self, idx: nat) -> Cube {
        Cube::axial(
            idx as int % self.width() as int - self.radius(),
            idx as int / self.width() as int - self.radius(),
        )
    }

    /// The canonical order is that of the spiral round the origin.
    open spec fn cells(&self) -> Seq<Cube> {
        spiral_positions(Cube::origin(), self.radius())
    }

    proof fn lemma_slot_round_trip(&self, p: Cube) {
        let r: int = self.radius() as int;
        let w: int = self.width() as int;
        let col: int = p.x + r;
        let row: int = p.z + r;
        crate::position::lemma_distance(p, Cube::origin());
        assert(0 <= col < w && 0 <= row < w);
        lemma_rectangle_slot(w, col, row);
    }

    proof fn lemma_cells(&self) {
        lemma_spiral_members(Cube::origin(), self.radius());
    }

    fn contains(&self, pos: &HexPosition) -> (b: bool) {
        HexPosition::origin().distance_to(pos) <= self.radius
    }

    fn array_size(&self) -> (n: usize) {
        proof {
            use_type_invariant(self);
            HexGrid::lemma_admits(self.radius);
        }
        let delta_r: usize = (self.max_r - self.min_r) as usize;
        let delta_u: usize = (self.max_u - self.min_u) as usize;
        (delta_r + 1) * (delta_u + 1)
    }

    fn get_index(&self, pos: &HexPosition) -> (r: Option<usize>) {
        proof {
            use_type_invariant(self);
            use_type_invariant(pos);
            HexGrid::lemma_admits(self.radius);
            if self.member(pos@) {
                self.lemma_slot_round_trip(pos@);
                crate::position::lemma_distance(pos@, Cube::origin());
            }
        }
        if self.contains(pos) {
            let (r, u): (i32, i32) = pos.as_axial();
            let delta_r: usize = (self.max_r - self.min_r) as usize;
            let col: usize = (r - self.min_r) as usize;
            let row: usize = (u - self.min_u) as usize;
            proof {
                lemma_rectangle_slot(self.width() as int, col as int, row as int);
            }
            Some(col + row * (delta_r + 1))
        } else {
            None
        }
    }

    fn inverse_index(&self, index: usize) -> (p: HexPosition) {
        proof {
            use_type_invariant(self);
            HexGrid::lemma_admits(self.radius);
            lemma_rectangle_cell(self.width() as int, index as int);
        }
        let delta_r: usize = (self.max_r - self.min_r) as usize;
        let col: usize = index % (delta_r + 1);
        let row: usize = index / (delta_r + 1);
        let r: i32 = col as i32 + self.min_r;
        let u: i32 = row as i32 + self.min_u;
        HexPosition::from_axial(r, u)
    }

    fn iter(&self) -> (it: SpiralIterator) {
        proof {
            use_type_invariant(self);
            HexGrid::lemma_admits(self.radius);
        }
        HexPosition::origin().spiral_to_radius(self.radius)
    }
}

/// In a rectangle of `w` columns, the cell in column `col` of row `row` has the
/// index `col + row * w`, which lies below `w * w` where the row does, and from
/// which the column and the row are had again by remainder and quotient.
proof fn lemma_rectangle_slot(w: int, col: int, row: int)
    requires
        0 <= col < w,
        0 <= row < w,
    ensures
        0 <= col + row * w < w * w,
        (col + row * w) % w == col,
        (col + row * w) / w == row,
{
    assert(0 <= row * w && row * w + w <= w * w) by (nonlinear_arith)
        requires
            0 <= row < w,
    ;
    vstd::arithmetic::div_mod::lemma_fundamental_div_mod_converse(col + row * w, w, row, col);
}

/// In a rectangle of `w` columns and `w` rows, each index below `w * w` has its
/// column and its row within the rectangle.
proof fn lemma_rectangle_cell(w: int, idx: int)
    requires
        0 < w,
        0 <= idx < w * w,
    ensures
        0 <= idx % w < w,
        0 <= idx / w < w,
{
    vstd::arithmetic::div_mod::lemma_fundamental_div_mod(idx, w);
    vstd::arithmetic::div_mod::lemma_mod_bound(idx, w);
    assert(0 <= idx / w < w) by (nonlinear_arith)
        requires
            0 < w,
            0 <= idx < w * w,
            idx == w * (idx / w) + idx % w,
            0 <= idx % w < w,
    ;
}

/// The positions within `r` steps of the origin span the axial coordinates from
/// `-r` to `r`, in `x` and in `z`.
proof fn lemma_bounding_rectangle(r: nat)
    ensures
        forall|p: Cube| #[trigger]
            spiral_positions(Cube::origin(), r).contains(p) ==> -r <= p.x <= r && -r <= p.z <= r,
        spiral_positions(Cube::origin(), r).contains(Cube { x: r as int, y: 0, z: -r }),
        spiral_positions(Cube::origin(), r).contains(Cube { x: -r, y: 0, z: r as int }),
{
    lemma_spiral_members(Cube::origin(), r);
}

} // verus!
