//! The ring of positions at a fixed distance from a center, in walking order.
use vstd::prelude::*;
use crate::position::{Cube, HexPosition, Vector};

verus! {

/// The number of positions on the ring of radius `r`.
pub open spec fn ring_len(r: nat) -> nat {
    if r == 0 {
        1
    } else {
        6 * r
    }
}

/// The corner at which side `s` of the ring begins. Corner 0 lies `r` steps
/// from the center in direction 4, and corner 6 is corner 0 again.
pub open spec fn ring_corner(center: Cube, r: int, s: int) -> Cube {
    center.plus(Cube::steps((s + 4) % 6, r))
}

/// The position `j` steps along side `s`, which runs in direction `s`.
pub open spec fn ring_point(center: Cube, r: int, s: int, j: int) -> Cube {
    ring_corner(center, r, s).plus(Cube::steps(s, j))
}

/// The position that the walk round the ring of radius `r > 0` reaches with its
/// step `n + 1`. The walk leaves corner 0 and takes `r` steps along each of the
/// six sides in turn, so that it ends on corner 0.
pub open spec fn ring_at(center: Cube, r: int, n: int) -> Cube {
    let k: int = n + 1;
    if k <= r {
        ring_point(center, r, 0, k)
    } else if k <= 2 * r {
        ring_point(center, r, 1, k - r)
    } else if k <= 3 * r {
        ring_point(center, r, 2, k - 2 * r)
    } else if k <= 4 * r {
        ring_point(center, r, 3, k - 3 * r)
    } else if k <= 5 * r {
        ring_point(center, r, 4, k - 4 * r)
    } else {
        ring_point(center, r, 5, k - 5 * r)
    }
}

/// The ring of radius `r` round `center`, in walking order. The ring of radius
/// 0 is the center alone.
pub open spec fn ring_positions(center: Cube, r: nat) -> Seq<Cube> {
    if r == 0 {
        seq![center]
    } else {
        Seq::new(6 * r, |n: int| ring_at(center, r as int, n))
    }
}

/// The place of `p` in the walk round its ring about `center`: the index `n`
/// at which `ring_at` gives `p`, for a position that is not the center.
pub open spec fn ring_index(center: Cube, p: Cube) -> int {
    let d = p.minus(center);
    let r: int = p.distance(center);
    if d.z == r && d.y < 0 {
        -d.y - 1
    } else if d.y == -r && d.x > 0 {
        r + d.x - 1
    } else if d.x == r && d.z < 0 {
        2 * r - d.z - 1
    } else if d.z == -r && d.y > 0 {
        3 * r + d.y - 1
    } else if d.y == r && d.x < 0 {
        4 * r - d.x - 1
    } else {
        5 * r + d.z - 1
    }
}

/// The ring of radius `r` has `6 r` positions, or one where `r` is 0, and each
/// of them lies exactly `r` steps from the center.
pub proof fn lemma_ring_positions(center: Cube, r: nat)
    ensures
        ring_positions(center, r).len() == ring_len(r),
        r > 0 ==> ring_positions(center, r).len() == 6 * r,
        r == 0 ==> ring_positions(center, r).len() == 1,
        forall|n: int|
            0 <= n < ring_positions(center, r).len() ==> (#[trigger] ring_positions(
                center,
                r,
            )[n]).distance(center) == r,
{
    assert forall|n: int| 0 <= n < ring_positions(center, r).len() implies (
    #[trigger] ring_positions(center, r)[n]).distance(center) == r by {
        if r > 0 {
            lemma_ring_at(center, r as int, n);
        }
    }
}

/// What holds of each position of the walk round a ring of radius `r > 0`: it
/// lies `r` steps from the center, on the plane of the lattice if the center
/// does, within `r` of the center in each coordinate, and `ring_index` finds
/// its place again.
pub proof fn lemma_ring_at(center: Cube, r: int, n: int)
    requires
        r > 0,
        0 <= n < 6 * r,
    ensures
        ring_at(center, r, n).distance(center) == r,
        center.valid() ==> ring_at(center, r, n).valid(),
        center.valid() ==> ring_index(center, ring_at(center, r, n)) == n,
        center.reach_fits(r) ==> ring_at(center, r, n).fits(),
{
}

/// Every position that lies `r > 0` steps from the center is on the ring of
/// radius `r`, at the place that `ring_index` gives.
pub proof fn lemma_ring_index(center: Cube, p: Cube)
    requires
        center.valid(),
        p.valid(),
        p != center,
    ensures
        p.distance(center) > 0,
        0 <= ring_index(center, p) < 6 * p.distance(center),
        ring_at(center, p.distance(center), ring_index(center, p)) == p,
{
}

/// The ring of radius `r` round a center on the plane holds each position that
/// lies `r` steps from the center, once, and nothing else.
pub proof fn lemma_ring_members(center: Cube, r: nat)
    requires
        center.valid(),
    ensures
        ring_positions(center, r).no_duplicates(),
        forall|p: Cube| #[trigger]
            ring_positions(center, r).contains(p) <==> p.valid() && p.distance(center) == r,
{
    let ring = ring_positions(center, r);
    if r == 0 {
        assert forall|p: Cube| ring.contains(p) <==> p.valid() && p.distance(center) == r by {
            if p.valid() && p.distance(center) == 0 {
                assert(p == center);
                assert(ring[0] == p);
            }
        }
    } else {
        assert forall|i: int, j: int| 0 <= i < ring.len() && 0 <= j < ring.len() && i != j implies ring[i]
            != ring[j] by {
            lemma_ring_at(center, r as int, i);
            lemma_ring_at(center, r as int, j);
        }
        assert forall|p: Cube| ring.contains(p) <==> p.valid() && p.distance(center) == r by {
            if ring.contains(p) {
                let n: int = choose|n: int| 0 <= n < ring.len() && ring[n] == p;
                lemma_ring_at(center, r as int, n);
            }
            if p.valid() && p.distance(center) == r {
                lemma_ring_index(center, p);
                assert(ring[ring_index(center, p)] == p);
            }
        }
    }
}

/// The number of steps that lie before side `s` in the walk.
spec fn side_start(r: int, s: int) -> int {
    if s <= 0 {
        0
    } else if s == 1 {
        r
    } else if s == 2 {
        2 * r
    } else if s == 3 {
        3 * r
    } else if s == 4 {
        4 * r
    } else if s == 5 {
        5 * r
    } else {
        6 * r
    }
}

/// A cursor over a ring.
#[derive(Clone, Copy, PartialEq, Eq, Structural, PartialOrd, Ord)]
pub struct RingIterator {
    center: HexPosition,
    radius: u32,
    /// Where the walk stands: on the position it yielded last, or on corner 0.
    next: HexPosition,
    /// The side that the walk is on; 6 once the ring is exhausted.
    side: u32,
    /// The steps taken along that side.
    step: u32,
}

impl RingIterator {
    #[verifier::type_invariant]
    closed spec fn inv(self) -> bool {
        &&& self.center@.reach_fits(self.radius as int)
        &&& self.side <= 6
        &&& self.radius == 0 ==> self.step == 0 && self.next == self.center
        &&& self.radius > 0 ==> {
            &&& self.side < 6 ==> self.step < self.radius
            &&& self.side == 6 ==> self.step == 0
            &&& self.next@ == ring_point(
                self.center@,
                self.radius as int,
                self.side as int,
                self.step as int,
            )
        }
    }

    /// The number of positions yielded so far.
    closed spec fn consumed(self) -> int {
        if self.radius == 0 {
            if self.side >= 6 {
                1
            } else {
                0
            }
        } else {
            side_start(self.radius as int, self.side as int) + self.step
        }
    }

    /// The center of the ring.
    pub closed spec fn center(self) -> Cube {
        self.center@
    }

    /// The radius of the ring.
    pub closed spec fn radius(self) -> nat {
        self.radius as nat
    }

    /// The positions that are still to come, in order.
    pub closed spec fn remaining(self) -> Seq<Cube> {
        ring_positions(self.center@, self.radius as nat).skip(self.consumed())
    }

    /// The next position of the ring, or `None` once the ring is exhausted.
    pub fn next(&mut self) -> (res: Option<HexPosition>)
        ensures
            final(self).center() == old(self).center(),
            final(self).radius() == old(self).radius(),
            match res {
                Some(p) => old(self).remaining().len() > 0 && p@ == old(self).remaining()[0]
                    && final(self).remaining() == old(self).remaining().skip(1),
                None => old(self).remaining().len() == 0 && final(self).remaining().len() == 0,
            },
    {
        proof {
            use_type_invariant(&*self);
        }
        if self.side >= 6 {
            None
        } else if self.radius == 0 {
            *self = RingIterator { side: 6, ..*self };
            Some(self.center)
        } else {
            let p = self.next.neighbor(self.side);
            if self.step + 1 == self.radius {
                *self = RingIterator { next: p, side: self.side + 1, step: 0, ..*self };
            } else {
                *self = RingIterator { next: p, step: self.step + 1, ..*self };
            }
            Some(p)
        }
    }
}

impl HexPosition {
    /// A cursor over the ring of the given radius round this position.
    pub fn ring_with_radius(&self, radius: u32) -> (it: RingIterator)
        requires
            self@.reach_fits(radius as int),
        ensures
            it.center() == self@,
            it.radius() == radius,
            it.remaining() == ring_positions(self@, radius as nat),
    {
        proof {
            use_type_invariant(self);
        }
        let start = if radius == 0 {
            *self
        } else {
            *self + Vector::unit(4).scale(radius as i32)
        };
        RingIterator { center: *self, radius, next: start, side: 0, step: 0 }
    }
}

} // verus!
