//! Fixed-point world-space vectors and the beam geometry derived from them.
//!
//! Coordinates live on an integer grid chosen by the host (for example
//! thousandths of a world unit). All geometry the lifecycle engine decides
//! on — the difference vector, its squared length, the midpoint offset and
//! the orientation class — is exact integer arithmetic; the host turns the
//! squared length into a floating-point length and the orientation class
//! into a rotation quaternion when it builds render assets.

use vstd::prelude::*;

verus! {

/// Largest coordinate magnitude the engine accepts. Keeps every squared
/// length and midpoint computation far away from `i64` overflow.
pub const COORD_LIMIT: i64 = 1_000_000;

/// A point or direction on the fixed-point world grid.
#[derive(Clone, Copy, Debug, PartialEq, Eq)]
pub struct Vec3Fx {
    pub x: i64,
    pub y: i64,
    pub z: i64,
}

/// How a child visual must be rotated to line up with the beam direction.
///
/// `Identity` means the direction already coincides with the canonical axis
/// of the visual (the beam mesh's "up", the particle burst's "backward"), so
/// no rotation is needed. `Rotated` means the host must compute the rotation
/// arc from the canonical axis onto the normalized direction.
#[derive(Clone, Copy, Debug, PartialEq, Eq)]
pub enum Orientation {
    Identity,
    Rotated,
}

impl Vec3Fx {
    /// The vector fits on the accepted coordinate grid.
    pub open spec fn in_range(self) -> bool {
        &&& -COORD_LIMIT <= self.x <= COORD_LIMIT
        &&& -COORD_LIMIT <= self.y <= COORD_LIMIT
        &&& -COORD_LIMIT <= self.z <= COORD_LIMIT
    }

    /// Bound on a difference of two in-range vectors.
    pub open spec fn dir_in_range(self) -> bool {
        &&& -2 * COORD_LIMIT <= self.x <= 2 * COORD_LIMIT
        &&& -2 * COORD_LIMIT <= self.y <= 2 * COORD_LIMIT
        &&& -2 * COORD_LIMIT <= self.z <= 2 * COORD_LIMIT
    }

    /// The zero vector, which has no direction.
    pub open spec fn is_zero(self) -> bool {
        self.x == 0 && self.y == 0 && self.z == 0
    }

    /// Componentwise difference `a - b`, as a value on the grid.
    pub open spec fn diff(a: Vec3Fx, b: Vec3Fx) -> Vec3Fx {
        Vec3Fx { x: (a.x - b.x) as i64, y: (a.y - b.y) as i64, z: (a.z - b.z) as i64 }
    }

    /// Squared Euclidean length, exact over the integers.
    pub open spec fn spec_norm_sq(self) -> int {
        self.x * self.x + self.y * self.y + self.z * self.z
    }

    /// Componentwise halving, rounding towards zero.
    pub open spec fn spec_half(self) -> Vec3Fx {
        Vec3Fx {
            x: half_int(self.x as int) as i64,
            y: half_int(self.y as int) as i64,
            z: half_int(self.z as int) as i64,
        }
    }

    /// A positive multiple of the canonical beam axis (the `+y` "up" axis):
    /// the beam mesh needs no rotation.
    pub open spec fn points_up(self) -> bool {
        self.x == 0 && self.z == 0 && self.y > 0
    }

    /// A positive multiple of the canonical burst axis (the `-z` "backward"
    /// axis): the particle burst needs no rotation.
    pub open spec fn points_back(self) -> bool {
        self.x == 0 && self.y == 0 && self.z < 0
    }

    /// Difference `self - other`, exact because both operands are in range.
    pub fn minus(self, other: Vec3Fx) -> (r: Vec3Fx)
        requires
            self.in_range(),
            other.in_range(),
        ensures
            r == Vec3Fx::diff(self, other),
            r.x == self.x - other.x,
            r.y == self.y - other.y,
            r.z == self.z - other.z,
            r.dir_in_range(),
    {
        Vec3Fx { x: self.x - other.x, y: self.y - other.y, z: self.z - other.z }
    }

    /// Exact squared length of a difference vector.
    pub fn norm_sq(self) -> (r: i64)
        requires
            self.dir_in_range(),
        ensures
            r == self.spec_norm_sq(),
            r >= 0,
    {
        proof {
            lemma_square_bound(self.x as int);
            lemma_square_bound(self.y as int);
            lemma_square_bound(self.z as int);
        }
        self.x * self.x + self.y * self.y + self.z * self.z
    }

    /// Componentwise halving towards zero, so that the midpoint offset of a
    /// beam spanning `origin -> end` is `(end - origin) / 2` on the grid.
    pub fn half(self) -> (r: Vec3Fx)
        requires
            self.dir_in_range(),
        ensures
            r == self.spec_half(),
            r.dir_in_range(),
    {
        Vec3Fx {
            x: half_component(self.x),
            y: half_component(self.y),
            z: half_component(self.z),
        }
    }
}

/// Halving towards zero on mathematical integers.
pub open spec fn half_int(a: int) -> int {
    if a >= 0 {
        a / 2
    } else {
        -((-a) / 2)
    }
}

/// `a / 2` rounding towards zero, for one coordinate of a difference vector.
fn half_component(a: i64) -> (r: i64)
    requires
        -2 * COORD_LIMIT <= a <= 2 * COORD_LIMIT,
    ensures
        r == half_int(a as int),
        -2 * COORD_LIMIT <= r <= 2 * COORD_LIMIT,
{
    if a >= 0 {
        ((a as u64) / 2) as i64
    } else {
        let m: u64 = (-a) as u64;
        -((m / 2) as i64)
    }
}

/// A coordinate bounded by twice the grid limit has a small, non-negative
/// square.
pub(crate) proof fn lemma_square_bound(a: int)
    requires
        -2 * COORD_LIMIT <= a <= 2 * COORD_LIMIT,
    ensures
        0 <= a * a <= 4 * (COORD_LIMIT as int) * (COORD_LIMIT as int),
{
    assert(0 <= a * a <= 4 * (COORD_LIMIT as int) * (COORD_LIMIT as int))
        by (nonlinear_arith)
        requires
            -2 * COORD_LIMIT <= a <= 2 * COORD_LIMIT,
    ;
}

/// Orientation of the beam mesh, whose canonical axis is "up": the identity
/// exactly when the direction is already a positive multiple of that axis.
pub fn beam_orientation(dir: Vec3Fx) -> (r: Orientation)
    ensures
        r == spec_beam_orientation(dir),
        (r == Orientation::Identity) <==> dir.points_up(),
{
    if dir.x == 0 && dir.z == 0 && dir.y > 0 {
        Orientation::Identity
    } else {
        Orientation::Rotated
    }
}

/// Orientation of the particle burst, whose canonical axis is "backward":
/// the identity exactly when the direction already points backward.
pub fn burst_orientation(dir: Vec3Fx) -> (r: Orientation)
    ensures
        r == spec_burst_orientation(dir),
        (r == Orientation::Identity) <==> dir.points_back(),
{
    if dir.x == 0 && dir.y == 0 && dir.z < 0 {
        Orientation::Identity
    } else {
        Orientation::Rotated
    }
}

/// Orientation class the beam mesh gets for direction `dir`.
pub open spec fn spec_beam_orientation(dir: Vec3Fx) -> Orientation {
    if dir.points_up() {
        Orientation::Identity
    } else {
        Orientation::Rotated
    }
}

/// Orientation class the particle burst gets for direction `dir`.
pub open spec fn spec_burst_orientation(dir: Vec3Fx) -> Orientation {
    if dir.points_back() {
        Orientation::Identity
    } else {
        Orientation::Rotated
    }
}

} // verus!
