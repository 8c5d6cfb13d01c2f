//! Positions and displacements of the hexagonal lattice.
//!
//! [`Cube`] is the mathematical model: three unbounded integers. [`HexPosition`]
//! and [`Vector`] are its executable counterparts over `i32`; each is viewed as
//! a `Cube`, and every contract is stated over that view.
use vstd::prelude::*;

mod order;

pub use self::order::{compare_cubes, compare_int};

verus! {

/// A triple of cube coordinates over the mathematical integers.
///
/// It stands for a position or for a displacement between two positions; both
/// lie on the plane `x + y + z == 0`.
pub struct Cube {
    pub x: int,
    pub y: int,
    pub z: int,
}

/// One of the three axes of the cube coordinates.
#[derive(Debug, Clone, Copy, PartialEq, Eq, Structural)]
pub enum Axis {
    X,
    Y,
    Z,
}

/// The absolute value of `i`.
pub open spec fn abs(i: int) -> int {
    if i < 0 {
        -i
    } else {
        i
    }
}

impl Cube {
    /// Whether the triple lies on the plane of the lattice.
    pub open spec fn valid(self) -> bool {
        self.x + self.y + self.z == 0
    }

    /// Whether each coordinate is representable in 32 bits.
    pub open spec fn fits(self) -> bool {
        &&& i32::MIN <= self.x <= i32::MAX
        &&& i32::MIN <= self.y <= i32::MAX
        &&& i32::MIN <= self.z <= i32::MAX
    }

    /// The position `(0, 0, 0)`.
    pub open spec fn origin() -> Cube {
        Cube { x: 0, y: 0, z: 0 }
    }

    /// The position with axial coordinates `(x, z)`.
    pub open spec fn axial(x: int, z: int) -> Cube {
        Cube { x, y: -(x + z), z }
    }

    /// The triple with the coordinate on `axis` put in place of what the other
    /// two leave for it on the plane of the lattice.
    pub open spec fn restored(self, axis: Axis) -> Cube {
        match axis {
            Axis::X => Cube { x: -(self.y + self.z), y: self.y, z: self.z },
            Axis::Y => Cube { x: self.x, y: -(self.x + self.z), z: self.z },
            Axis::Z => Cube { x: self.x, y: self.y, z: -(self.x + self.y) },
        }
    }

    /// The axial coordinates `(x, z)`.
    pub open spec fn as_axial(self) -> (int, int) {
        (self.x, self.z)
    }

    /// The displacement of `k` steps in direction `d`, for `d` in `0..6`:
    /// direction 0 is `(+1, -1, 0)`, and the others follow in the canonical
    /// order.
    pub open spec fn steps(d: int, k: int) -> Cube {
        if d == 0 {
            Cube { x: k, y: -k, z: 0 }
        } else if d == 1 {
            Cube { x: k, y: 0, z: -k }
        } else if d == 2 {
            Cube { x: 0, y: k, z: -k }
        } else if d == 3 {
            Cube { x: -k, y: k, z: 0 }
        } else if d == 4 {
            Cube { x: -k, y: 0, z: k }
        } else {
            Cube { x: 0, y: -k, z: k }
        }
    }

    /// The unit displacement in direction `d`, for `d` in `0..6`.
    pub open spec fn unit(d: int) -> Cube {
        Cube::steps(d, 1)
    }

    /// Whether every position within `r` steps of this one is representable in
    /// 32 bits.
    pub open spec fn reach_fits(self, r: int) -> bool {
        &&& i32::MIN <= self.x - r && self.x + r <= i32::MAX
        &&& i32::MIN <= self.y - r && self.y + r <= i32::MAX
        &&& i32::MIN <= self.z - r && self.z + r <= i32::MAX
    }

    /// The sum, coordinate by coordinate.
    pub open spec fn plus(self, v: Cube) -> Cube {
        Cube { x: self.x + v.x, y: self.y + v.y, z: self.z + v.z }
    }

    /// The difference, coordinate by coordinate.
    pub open spec fn minus(self, v: Cube) -> Cube {
        Cube { x: self.x - v.x, y: self.y - v.y, z: self.z - v.z }
    }

    /// Each coordinate multiplied by `f`.
    pub open spec fn times(self, f: int) -> Cube {
        Cube { x: self.x * f, y: self.y * f, z: self.z * f }
    }

    /// The neighbor in direction `d mod 6`.
    pub open spec fn neighbor(self, d: int) -> Cube {
        self.plus(Cube::unit(d % 6))
    }

    /// The number of steps between two positions.
    pub open spec fn distance(self, other: Cube) -> int {
        (abs(self.x - other.x) + abs(self.y - other.y) + abs(self.z - other.z)) / 2
    }
}

/// Axial coordinates determine a position: the position made from `(x, z)`
/// lies on the plane of the lattice and has the axial coordinates `(x, z)`,
/// and a position on the plane is the one made from its axial coordinates.
pub proof fn lemma_axial_round_trip(x: int, z: int, p: Cube)
    ensures
        Cube::axial(x, z).valid(),
        Cube::axial(x, z).as_axial() == (x, z),
        p.valid() ==> Cube::axial(p.as_axial().0, p.as_axial().1) == p,
{
}

/// To recompute one coordinate from the other two puts a triple on the plane of
/// the lattice, and leaves a triple that lies there as it is.
pub proof fn lemma_restored(c: Cube, axis: Axis)
    ensures
        c.restored(axis).valid(),
        c.valid() ==> c.restored(axis) == c,
{
}

/// Each neighbor of a position lies one step from it.
pub proof fn lemma_neighbor_distance(p: Cube, d: int)
    ensures
        p.neighbor(d).distance(p) == 1,
        p.distance(p.neighbor(d)) == 1,
        p.valid() ==> p.neighbor(d).valid(),
{
}

/// The distance is symmetric and never negative, and it is 0 between a position
/// and itself. On the plane of the lattice the three coordinate differences
/// add up to an even number, so that the halving is exact; the distance is the
/// largest of the three, and it is 0 between a position and itself only.
pub proof fn lemma_distance(p: Cube, q: Cube)
    ensures
        p.distance(q) == q.distance(p),
        p.distance(q) >= 0,
        p.distance(p) == 0,
        p.valid() && q.valid() ==> {
            &&& abs(p.x - q.x) + abs(p.y - q.y) + abs(p.z - q.z) == 2 * p.distance(q)
            &&& abs(p.x - q.x) <= p.distance(q)
            &&& abs(p.y - q.y) <= p.distance(q)
            &&& abs(p.z - q.z) <= p.distance(q)
            &&& abs(p.x - q.x) == p.distance(q) || abs(p.y - q.y) == p.distance(q) || abs(
                p.z - q.z,
            ) == p.distance(q)
            &&& p.distance(q) == 0 ==> p == q
        },
{
}

/// The coordinates that a rejected construction was given: their sum is not zero.
#[derive(Debug, Clone, Copy, PartialEq, Eq, Structural)]
pub struct InvalidCoordinate {
    pub x: i32,
    pub y: i32,
    pub z: i32,
}

/// A position of the hexagonal lattice, in cube coordinates.
#[derive(Debug, Clone, Copy, PartialEq, Eq, Structural, Ord, Hash)]
pub struct HexPosition {
    x: i32,
    y: i32,
    z: i32,
}

/// A displacement between two positions.
#[derive(Debug, Clone, Copy, PartialEq, Eq, Structural, PartialOrd, Ord, Hash)]
pub struct Vector {
    inner: HexPosition,
}

impl View for HexPosition {
    type V = Cube;

    closed spec fn view(&self) -> Cube {
        Cube { x: self.x as int, y: self.y as int, z: self.z as int }
    }
}

impl View for Vector {
    type V = Cube;

    closed spec fn view(&self) -> Cube {
        self.inner@
    }
}

impl HexPosition {
    /// Every position lies on the plane of the lattice.
    #[verifier::type_invariant]
    pub open spec fn inv(self) -> bool {
        self@.valid() && self@.fits()
    }

    /// A position is determined by its view.
    pub proof fn lemma_view_injective(a: HexPosition, b: HexPosition)
        requires
            a@ == b@,
        ensures
            a == b,
    {
    }

    /// The position `(0, 0, 0)`.
    pub fn origin() -> (p: HexPosition)
        ensures
            p@ == Cube::origin(),
    {
        HexPosition { x: 0, y: 0, z: 0 }
    }

    /// The position `(x, y, z)`, which must lie on the plane of the lattice.
    pub fn new(x: i32, y: i32, z: i32) -> (p: HexPosition)
        requires
            x + y + z == 0,
        ensures
            p@ == (Cube { x: x as int, y: y as int, z: z as int }),
    {
        HexPosition { x, y, z }
    }

    /// The position `(x, y, z)` if it lies on the plane of the lattice, and the
    /// rejected coordinates if it does not.
    pub fn try_new(x: i32, y: i32, z: i32) -> (r: Result<HexPosition, InvalidCoordinate>)
        ensures
            match r {
                Ok(p) => x + y + z == 0 && p@ == (Cube { x: x as int, y: y as int, z: z as int }),
                Err(e) => x + y + z != 0 && e == (InvalidCoordinate { x, y, z }),
            },
    {
        if x as i64 + y as i64 + z as i64 == 0 {
            Ok(HexPosition { x, y, z })
        } else {
            Err(InvalidCoordinate { x, y, z })
        }
    }

    /// The position with axial coordinates `(x, z)`.
    pub fn from_axial(x: i32, z: i32) -> (p: HexPosition)
        requires
            Cube::axial(x as int, z as int).fits(),
        ensures
            p@ == Cube::axial(x as int, z as int),
    {
        let y: i64 = 0 - (x as i64 + z as i64);
        HexPosition { x, y: y as i32, z }
    }

    /// The position had from three coordinates, each rounded by itself, by
    /// recomputing the one on `axis` from the other two, so that the position
    /// lies on the plane of the lattice.
    pub fn from_rounded(x: i32, y: i32, z: i32, axis: Axis) -> (p: HexPosition)
        requires
            (Cube { x: x as int, y: y as int, z: z as int }).restored(axis).fits(),
        ensures
            p@ == (Cube { x: x as int, y: y as int, z: z as int }).restored(axis),
    {
        match axis {
            Axis::X => {
                let rx: i64 = 0 - (y as i64 + z as i64);
                HexPosition { x: rx as i32, y, z }
            },
            Axis::Y => {
                let ry: i64 = 0 - (x as i64 + z as i64);
                HexPosition { x, y: ry as i32, z }
            },
            Axis::Z => {
                let rz: i64 = 0 - (x as i64 + y as i64);
                HexPosition { x, y, z: rz as i32 }
            },
        }
    }

    /// The axial coordinates `(x, z)` of the position.
    pub fn as_axial(&self) -> (a: (i32, i32))
        ensures
            (a.0 as int, a.1 as int) == self@.as_axial(),
    {
        (self.x, self.z)
    }

    /// The number of steps from this position to `other`.
    pub fn distance_to(&self, other: &HexPosition) -> (d: u32)
        ensures
            d == self@.distance(other@),
    {
        proof {
            use_type_invariant(self);
            use_type_invariant(other);
        }
        let dx: i64 = self.x as i64 - other.x as i64;
        let dy: i64 = self.y as i64 - other.y as i64;
        let dz: i64 = self.z as i64 - other.z as i64;
        let ax: i64 = if dx < 0 { -dx } else { dx };
        let ay: i64 = if dy < 0 { -dy } else { dy };
        let az: i64 = if dz < 0 { -dz } else { dz };
        ((ax + ay + az) / 2) as u32
    }
}

impl Vector {
    /// Every displacement lies on the plane of the lattice.
    #[verifier::type_invariant]
    pub open spec fn inv(self) -> bool {
        self@.valid() && self@.fits()
    }

    /// The displacement `(x, y, z)`, which must lie on the plane of the lattice.
    pub fn new(x: i32, y: i32, z: i32) -> (v: Vector)
        requires
            x + y + z == 0,
        ensures
            v@ == (Cube { x: x as int, y: y as int, z: z as int }),
    {
        Vector { inner: HexPosition::new(x, y, z) }
    }

    /// The unit displacement in direction `n mod 6`.
    pub fn unit(n: u32) -> (v: Vector)
        ensures
            v@ == Cube::unit(n as int % 6),
    {
        let d: u32 = n % 6;
        if d == 0 {
            Vector::new(1, -1, 0)
        } else if d == 1 {
            Vector::new(1, 0, -1)
        } else if d == 2 {
            Vector::new(0, 1, -1)
        } else if d == 3 {
            Vector::new(-1, 1, 0)
        } else if d == 4 {
            Vector::new(-1, 0, 1)
        } else {
            Vector::new(0, -1, 1)
        }
    }

    /// The displacement with every component multiplied by `f`.
    pub fn scale(&self, f: i32) -> (v: Vector)
        requires
            self@.times(f as int).fits(),
        ensures
            v@ == self@.times(f as int),
    {
        proof {
            use_type_invariant(self);
            assert((self@.x + self@.y + self@.z) * f == self@.x * f + self@.y * f + self@.z * f)
                by (nonlinear_arith);
        }
        Vector {
            inner: HexPosition {
                x: self.inner.x * f,
                y: self.inner.y * f,
                z: self.inner.z * f,
            },
        }
    }
}

impl core::ops::Sub for HexPosition {
    type Output = Vector;

    /// The displacement that leads from `rhs` to `self`.
    fn sub(self, rhs: HexPosition) -> (v: Vector)
        ensures
            v@ == self@.minus(rhs@),
    {
        proof {
            use_type_invariant(self);
            use_type_invariant(rhs);
        }
        Vector {
            inner: HexPosition { x: self.x - rhs.x, y: self.y - rhs.y, z: self.z - rhs.z },
        }
    }
}

impl vstd::std_specs::ops::SubSpecImpl for HexPosition {
    open spec fn obeys_sub_spec() -> bool {
        true
    }

    open spec fn sub_req(self, rhs: HexPosition) -> bool {
        self@.minus(rhs@).fits()
    }

    closed spec fn sub_spec(self, rhs: HexPosition) -> Vector {
        Vector {
            inner: HexPosition {
                x: (self.x - rhs.x) as i32,
                y: (self.y - rhs.y) as i32,
                z: (self.z - rhs.z) as i32,
            },
        }
    }
}

impl core::ops::Add<Vector> for HexPosition {
    type Output = HexPosition;

    /// The position reached from `self` by the displacement `rhs`.
    fn add(self, rhs: Vector) -> (p: HexPosition)
        ensures
            p@ == self@.plus(rhs@),
    {
        proof {
            use_type_invariant(self);
            use_type_invariant(rhs);
        }
        HexPosition {
            x: self.x + rhs.inner.x,
            y: self.y + rhs.inner.y,
            z: self.z + rhs.inner.z,
        }
    }
}

impl vstd::std_specs::ops::AddSpecImpl<Vector> for HexPosition {
    open spec fn obeys_add_spec() -> bool {
        true
    }

    open spec fn add_req(self, rhs: Vector) -> bool {
        self@.plus(rhs@).fits()
    }

    closed spec fn add_spec(self, rhs: Vector) -> HexPosition {
        HexPosition {
            x: (self.x + rhs.inner.x) as i32,
            y: (self.y + rhs.inner.y) as i32,
            z: (self.z + rhs.inner.z) as i32,
        }
    }
}

impl core::ops::Sub<Vector> for HexPosition {
    type Output = HexPosition;

    /// The position from which the displacement `rhs` leads to `self`.
    fn sub(self, rhs: Vector) -> (p: HexPosition)
        ensures
            p@ == self@.minus(rhs@),
    {
        proof {
            use_type_invariant(self);
            use_type_invariant(rhs);
        }
        HexPosition {
            x: self.x - rhs.inner.x,
            y: self.y - rhs.inner.y,
            z: self.z - rhs.inner.z,
        }
    }
}

impl vstd::std_specs::ops::SubSpecImpl<Vector> for HexPosition {
    open spec fn obeys_sub_spec() -> bool {
        true
    }

    open spec fn sub_req(self, rhs: Vector) -> bool {
        self@.minus(rhs@).fits()
    }

    closed spec fn sub_spec(self, rhs: Vector) -> HexPosition {
        HexPosition {
            x: (self.x - rhs.inner.x) as i32,
            y: (self.y - rhs.inner.y) as i32,
            z: (self.z - rhs.inner.z) as i32,
        }
    }
}

impl HexPosition {
    /// The neighbor in direction `n mod 6`.
    pub fn neighbor(&self, n: u32) -> (p: HexPosition)
        requires
            self@.neighbor(n as int).fits(),
        ensures
            p@ == self@.neighbor(n as int),
    {
        *self + Vector::unit(n)
    }

    /// The six neighbors, in the canonical order of the directions.
    pub fn neighbors(&self) -> (all: [HexPosition; 6])
        requires
            forall|d: int| 0 <= d < 6 ==> (#[trigger] self@.neighbor(d)).fits(),
        ensures
            forall|d: int|
                #![trigger all[d]]
                #![trigger self@.neighbor(d)]
                0 <= d < 6 ==> all[d]@ == self@.neighbor(d),
    {
        assert(self@.neighbor(0).fits() && self@.neighbor(1).fits() && self@.neighbor(2).fits());
        assert(self@.neighbor(3).fits() && self@.neighbor(4).fits() && self@.neighbor(5).fits());
        [
            self.neighbor(0),
            self.neighbor(1),
            self.neighbor(2),
            self.neighbor(3),
            self.neighbor(4),
            self.neighbor(5),
        ]
    }
}

} // verus!
