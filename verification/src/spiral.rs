//! The spiral round a center: its rings in order of radius, each in walking
//! order.
use vstd::prelude::*;
use crate::position::{Cube, HexPosition};
use crate::ring::{lemma_ring_members, lemma_ring_positions, ring_positions, RingIterator};

verus! {

/// The number of positions within `r` steps of a center.
pub open spec fn spiral_len(r: nat) -> nat {
    1 + 3 * r * (r + 1)
}

/// The spiral up to radius `r`: the rings of radius 0 to `r`, one after the
/// other.
pub open spec fn spiral_positions(center: Cube, r: nat) -> Seq<Cube>
    decreases r,
{
    if r == 0 {
        ring_positions(center, 0)
    } else {
        spiral_positions(center, (r - 1) as nat) + ring_positions(center, r)
    }
}

/// The rings of radius `from` to `to`, one after the other; empty where `from`
/// is over `to`.
pub open spec fn rings_from(center: Cube, from: nat, to: nat) -> Seq<Cube>
    decreases to + 1 - from,
{
    if from > to {
        Seq::empty()
    } else {
        ring_positions(center, from) + rings_from(center, from + 1, to)
    }
}

/// The rings from `from` to `to + 1` are those from `from` to `to`, and then the
/// ring of radius `to + 1`.
pub proof fn lemma_rings_from_last(center: Cube, from: nat, to: nat)
    requires
        from <= to + 1,
    ensures
        rings_from(center, from, to + 1) == rings_from(center, from, to) + ring_positions(
            center,
            to + 1,
        ),
    decreases to + 1 - from,
{
    if from == to + 1 {
        assert(rings_from(center, from + 1, to + 1) =~= Seq::empty());
        assert(rings_from(center, from, to) =~= Seq::empty());
        assert(rings_from(center, from, to + 1) =~= Seq::empty() + ring_positions(center, to + 1));
    } else {
        lemma_rings_from_last(center, from + 1, to);
        assert(rings_from(center, from, to + 1) =~= ring_positions(center, from) + (rings_from(
            center,
            from + 1,
            to,
        ) + ring_positions(center, to + 1)));
        assert(rings_from(center, from, to) =~= ring_positions(center, from) + rings_from(
            center,
            from + 1,
            to,
        ));
    }
}

/// The spiral up to radius `r` is the rings from 0 to `r`.
pub proof fn lemma_spiral_is_rings(center: Cube, r: nat)
    ensures
        spiral_positions(center, r) == rings_from(center, 0, r),
    decreases r,
{
    if r == 0 {
        assert(rings_from(center, 1, 0) =~= Seq::empty());
        assert(rings_from(center, 0, 0) =~= ring_positions(center, 0));
    } else {
        lemma_spiral_is_rings(center, (r - 1) as nat);
        lemma_rings_from_last(center, 0, (r - 1) as nat);
    }
}

/// The spiral up to radius `r` has `1 + 3 r (r + 1)` positions.
pub proof fn lemma_spiral_len(center: Cube, r: nat)
    ensures
        spiral_positions(center, r).len() == spiral_len(r),
        spiral_positions(center, r).len() == 1 + 3 * r * (r + 1),
    decreases r,
{
    lemma_ring_positions(center, r);
    if r > 0 {
        lemma_spiral_len(center, (r - 1) as nat);
        assert(1 + 3 * (r - 1) * ((r - 1) + 1) + 6 * r == 1 + 3 * r * (r + 1)) by (nonlinear_arith);
    }
}

/// The spiral up to radius `r` round a center on the plane holds each position
/// that lies at most `r` steps from the center, once, and nothing else.
pub proof fn lemma_spiral_members(center: Cube, r: nat)
    requires
        center.valid(),
    ensures
        spiral_positions(center, r).no_duplicates(),
        forall|p: Cube| #[trigger]
            spiral_positions(center, r).contains(p) <==> p.valid() && p.distance(center) <= r,
    decreases r,
{
    let ring = ring_positions(center, r);
    let all = spiral_positions(center, r);
    lemma_ring_members(center, r);
    if r == 0 {
        assert forall|p: Cube| all.contains(p) <==> p.valid() && p.distance(center) <= r by {
            assert(ring.contains(p) <==> p.valid() && p.distance(center) == r);
        }
    } else {
        let inner = spiral_positions(center, (r - 1) as nat);
        lemma_spiral_members(center, (r - 1) as nat);
        assert forall|i: int, j: int| 0 <= i < inner.len() && 0 <= j < ring.len() implies inner[i]
            != ring[j] by {
            assert(inner.contains(inner[i]));
            assert(ring.contains(ring[j]));
        }
        vstd::seq_lib::lemma_no_dup_in_concat(inner, ring);
        assert forall|p: Cube| all.contains(p) <==> p.valid() && p.distance(center) <= r by {
            assert(ring.contains(p) <==> p.valid() && p.distance(center) == r);
            assert(inner.contains(p) <==> p.valid() && p.distance(center) <= r - 1);
            if all.contains(p) {
                let n: int = choose|n: int| 0 <= n < all.len() && all[n] == p;
                if n < inner.len() {
                    assert(inner[n] == p);
                } else {
                    assert(ring[n - inner.len()] == p);
                }
            }
            if inner.contains(p) {
                let n: int = choose|n: int| 0 <= n < inner.len() && inner[n] == p;
                assert(all[n] == p);
            }
            if ring.contains(p) {
                let n: int = choose|n: int| 0 <= n < ring.len() && ring[n] == p;
                assert(all[inner.len() + n] == p);
            }
        }
    }
}

/// A cursor over a spiral, with or without a last ring.
#[derive(Clone, Copy, PartialEq, Eq, Structural, PartialOrd, Ord)]
pub struct SpiralIterator {
    start_pos: HexPosition,
    cur_radius: u32,
    max_radius: Option<u32>,
    iter: RingIterator,
}

impl SpiralIterator {
    #[verifier::type_invariant]
    closed spec fn inv(self) -> bool {
        &&& self.iter.center() == self.start_pos@
        &&& self.iter.radius() == self.cur_radius
        &&& self.max_radius matches Some(m) ==> self.cur_radius <= m && self.start_pos@.reach_fits(
            m as int,
        )
    }

    /// The center of the spiral.
    pub closed spec fn center(self) -> Cube {
        self.start_pos@
    }

    /// The radius of the last ring, if there is one.
    pub closed spec fn limit(self) -> Option<nat> {
        match self.max_radius {
            Some(m) => Some(m as nat),
            None => None,
        }
    }

    /// The radius of the ring that the cursor is on.
    pub closed spec fn radius(self) -> nat {
        self.cur_radius as nat
    }

    /// What is still to come of the ring that the cursor is on.
    pub closed spec fn ring_left(self) -> Seq<Cube> {
        self.iter.remaining()
    }

    /// Whether the next step stays within the representable positions: a step
    /// onto a new ring of a spiral without a last ring needs that ring to be
    /// representable.
    pub open spec fn ready(self) -> bool {
        self.ring_left().len() == 0 && self.limit() is None ==> self.center().reach_fits(
            self.radius() as int + 1,
        )
    }

    /// What is still to come of a spiral with a last ring.
    pub open spec fn remaining(self) -> Seq<Cube>
        recommends
            self.limit() is Some,
    {
        self.ring_left() + rings_from(self.center(), self.radius() + 1, self.limit().unwrap())
    }

    /// The next position of the spiral, or `None` once its last ring is
    /// exhausted.
    pub fn next(&mut self) -> (res: Option<HexPosition>)
        requires
            old(self).ready(),
        ensures
            final(self).center() == old(self).center(),
            final(self).limit() == old(self).limit(),
            old(self).ring_left().len() > 0 ==> {
                &&& res matches Some(p) && p@ == old(self).ring_left()[0]
                &&& final(self).radius() == old(self).radius()
                &&& final(self).ring_left() == old(self).ring_left().skip(1)
            },
            old(self).ring_left().len() == 0 && old(self).limit() == Some(old(self).radius()) ==> {
                &&& res is None
                &&& final(self).radius() == old(self).radius()
                &&& final(self).ring_left().len() == 0
            },
            old(self).ring_left().len() == 0 && old(self).limit() != Some(old(self).radius()) ==> {
                &&& res matches Some(p) && p@ == ring_positions(
                    old(self).center(),
                    old(self).radius() + 1,
                )[0]
                &&& final(self).radius() == old(self).radius() + 1
                &&& final(self).ring_left() == ring_positions(
                    old(self).center(),
                    old(self).radius() + 1,
                ).skip(1)
            },
            old(self).limit() is Some ==> match res {
                Some(p) => old(self).remaining().len() > 0 && p@ == old(self).remaining()[0]
                    && final(self).remaining() == old(self).remaining().skip(1),
                None => old(self).remaining().len() == 0 && final(self).remaining().len() == 0,
            },
    {
        proof {
            use_type_invariant(&*self);
        }
        let mut ring = self.iter;
        match ring.next() {
            Some(p) => {
                *self = SpiralIterator { iter: ring, ..*self };
                Some(p)
            },
            None => {
                let last = match self.max_radius {
                    Some(m) => m == self.cur_radius,
                    None => false,
                };
                if last {
                    *self = SpiralIterator { iter: ring, ..*self };
                    None
                } else {
                    let radius: u32 = self.cur_radius + 1;
                    let mut ring = self.start_pos.ring_with_radius(radius);
                    let first = ring.next();
                    *self = SpiralIterator { cur_radius: radius, iter: ring, ..*self };
                    first
                }
            },
        }
    }
}

impl HexPosition {
    /// A cursor over the spiral round this position, without a last ring.
    pub fn spiral(&self) -> (it: SpiralIterator)
        ensures
            it.center() == self@,
            it.limit() is None,
            it.radius() == 0,
            it.ring_left() == ring_positions(self@, 0),
    {
        proof {
            use_type_invariant(self);
        }
        SpiralIterator {
            start_pos: *self,
            cur_radius: 0,
            max_radius: None,
            iter: self.ring_with_radius(0),
        }
    }

    /// A cursor over the spiral round this position up to the ring of the given
    /// radius.
    pub fn spiral_to_radius(&self, radius: u32) -> (it: SpiralIterator)
        requires
            self@.reach_fits(radius as int),
        ensures
            it.center() == self@,
            it.limit() == Some(radius as nat),
            it.radius() == 0,
            it.ring_left() == ring_positions(self@, 0),
            it.remaining() == spiral_positions(self@, radius as nat),
    {
        proof {
            use_type_invariant(self);
            lemma_spiral_is_rings(self@, radius as nat);
        }
        SpiralIterator {
            start_pos: *self,
            cur_radius: 0,
            max_radius: Some(radius),
            iter: self.ring_with_radius(0),
        }
    }
}

} // verus!
