//! Integer-valued three-component vectors.
//!
//! Positions, velocities, directions and surface normals are all stored as
//! `i64` triples. The caller chooses a fixed scale when it converts world
//! units to integers; a product of two vectors (a dot or a cross product) is
//! then at the product of the two scales, and any threshold that is compared
//! against such a product is expected in that same product scale.

use vstd::prelude::*;

verus! {

/// Largest magnitude, per component, that the vector arithmetic accepts for
/// its inputs. Keeping each component within this bound lets a difference of
/// two component products still fit in `i64`.
pub const COORD_LIMIT: i64 = 1073741824;

/// A three-component integer vector.
#[derive(Clone, Copy, PartialEq, Eq, Structural, Debug)]
pub struct IVec3 {
    pub x: i64,
    pub y: i64,
    pub z: i64,
}

/// A scalar small enough to take part in products.
pub open spec fn in_range(v: int) -> bool {
    -COORD_LIMIT <= v <= COORD_LIMIT
}

/// A scalar within twice [`COORD_LIMIT`]; a difference of two in-range
/// scalars always lands here.
pub open spec fn in_double_range(v: int) -> bool {
    -2 * COORD_LIMIT <= v <= 2 * COORD_LIMIT
}

/// Every component of `v` is within [`COORD_LIMIT`].
pub open spec fn vec_in_range(v: IVec3) -> bool {
    in_range(v.x as int) && in_range(v.y as int) && in_range(v.z as int)
}

/// Every component of `v` is within twice [`COORD_LIMIT`].
pub open spec fn vec_in_double_range(v: IVec3) -> bool {
    in_double_range(v.x as int) && in_double_range(v.y as int) && in_double_range(v.z as int)
}

/// The mathematical dot product of two vectors.
pub open spec fn dot_math(a: IVec3, b: IVec3) -> int {
    a.x * b.x + a.y * b.y + a.z * b.z
}

/// Bounds on a product follow from bounds on its factors.
pub proof fn lemma_mul_bounds(a: int, b: int, ca: int, cb: int)
    requires
        0 <= ca,
        0 <= cb,
        -ca <= a <= ca,
        -cb <= b <= cb,
    ensures
        -(ca * cb) <= a * b <= ca * cb,
{
    assert(-(ca * cb) <= a * b <= ca * cb) by (nonlinear_arith)
        requires
            0 <= ca,
            0 <= cb,
            -ca <= a <= ca,
            -cb <= b <= cb,
    ;
}

impl IVec3 {
    /// All three components are zero.
    pub open spec fn is_zero_vec(self) -> bool {
        self.x == 0 && self.y == 0 && self.z == 0
    }

    pub fn new(x: i64, y: i64, z: i64) -> (r: IVec3)
        ensures
            r == (IVec3 { x, y, z }),
    {
        IVec3 { x, y, z }
    }

    pub fn zero() -> (r: IVec3)
        ensures
            r == (IVec3 { x: 0i64, y: 0i64, z: 0i64 }),
    {
        IVec3 { x: 0, y: 0, z: 0 }
    }

    pub fn is_zero(&self) -> (r: bool)
        ensures
            r == self.is_zero_vec(),
    {
        self.x == 0 && self.y == 0 && self.z == 0
    }

    /// Componentwise sum.
    pub fn plus(self, other: IVec3) -> (r: IVec3)
        requires
            i64::MIN <= self.x + other.x <= i64::MAX,
            i64::MIN <= self.y + other.y <= i64::MAX,
            i64::MIN <= self.z + other.z <= i64::MAX,
        ensures
            r.x == self.x + other.x,
            r.y == self.y + other.y,
            r.z == self.z + other.z,
    {
        IVec3 { x: self.x + other.x, y: self.y + other.y, z: self.z + other.z }
    }

    /// Componentwise difference.
    pub fn minus(self, other: IVec3) -> (r: IVec3)
        requires
            i64::MIN <= self.x - other.x <= i64::MAX,
            i64::MIN <= self.y - other.y <= i64::MAX,
            i64::MIN <= self.z - other.z <= i64::MAX,
        ensures
            r.x == self.x - other.x,
            r.y == self.y - other.y,
            r.z == self.z - other.z,
    {
        IVec3 { x: self.x - other.x, y: self.y - other.y, z: self.z - other.z }
    }

    /// The cross product `self` x `other`. The second factor is allowed twice
    /// the usual component bound so that a difference of two positions can
    /// stand there directly.
    pub fn cross(self, other: IVec3) -> (r: IVec3)
        requires
            vec_in_range(self),
            vec_in_double_range(other),
        ensures
            r.x == self.y * other.z - self.z * other.y,
            r.y == self.z * other.x - self.x * other.z,
            r.z == self.x * other.y - self.y * other.x,
    {
        proof {
            lemma_mul_bounds(self.x as int, other.x as int, COORD_LIMIT as int, 2 * COORD_LIMIT);
            lemma_mul_bounds(self.x as int, other.y as int, COORD_LIMIT as int, 2 * COORD_LIMIT);
            lemma_mul_bounds(self.x as int, other.z as int, COORD_LIMIT as int, 2 * COORD_LIMIT);
            lemma_mul_bounds(self.y as int, other.x as int, COORD_LIMIT as int, 2 * COORD_LIMIT);
            lemma_mul_bounds(self.y as int, other.y as int, COORD_LIMIT as int, 2 * COORD_LIMIT);
            lemma_mul_bounds(self.y as int, other.z as int, COORD_LIMIT as int, 2 * COORD_LIMIT);
            lemma_mul_bounds(self.z as int, other.x as int, COORD_LIMIT as int, 2 * COORD_LIMIT);
            lemma_mul_bounds(self.z as int, other.y as int, COORD_LIMIT as int, 2 * COORD_LIMIT);
            lemma_mul_bounds(self.z as int, other.z as int, COORD_LIMIT as int, 2 * COORD_LIMIT);
        }
        IVec3 {
            x: self.y * other.z - self.z * other.y,
            y: self.z * other.x - self.x * other.z,
            z: self.x * other.y - self.y * other.x,
        }
    }

    /// The dot product `self . other`.
    pub fn dot(self, other: IVec3) -> (r: i64)
        requires
            vec_in_range(self),
            vec_in_range(other),
        ensures
            r == dot_math(self, other),
    {
        proof {
            lemma_mul_bounds(self.x as int, other.x as int, COORD_LIMIT as int, COORD_LIMIT as int);
            lemma_mul_bounds(self.y as int, other.y as int, COORD_LIMIT as int, COORD_LIMIT as int);
            lemma_mul_bounds(self.z as int, other.z as int, COORD_LIMIT as int, COORD_LIMIT as int);
        }
        self.x * other.x + self.y * other.y + self.z * other.z
    }

    /// Every component multiplied by the scalar `s`.
    pub fn scaled(self, s: i64) -> (r: IVec3)
        requires
            vec_in_range(self),
            in_range(s as int),
        ensures
            r.x == self.x * s,
            r.y == self.y * s,
            r.z == self.z * s,
    {
        proof {
            lemma_mul_bounds(self.x as int, s as int, COORD_LIMIT as int, COORD_LIMIT as int);
            lemma_mul_bounds(self.y as int, s as int, COORD_LIMIT as int, COORD_LIMIT as int);
            lemma_mul_bounds(self.z as int, s as int, COORD_LIMIT as int, COORD_LIMIT as int);
        }
        IVec3 { x: self.x * s, y: self.y * s, z: self.z * s }
    }

    /// Componentwise product, used to scale an angular acceleration by the
    /// principal inertia of a body, axis by axis.
    pub fn scaled_by_axes(self, other: IVec3) -> (r: IVec3)
        requires
            vec_in_range(self),
            vec_in_range(other),
        ensures
            r.x == self.x * other.x,
            r.y == self.y * other.y,
            r.z == self.z * other.z,
    {
        proof {
            lemma_mul_bounds(self.x as int, other.x as int, COORD_LIMIT as int, COORD_LIMIT as int);
            lemma_mul_bounds(self.y as int, other.y as int, COORD_LIMIT as int, COORD_LIMIT as int);
            lemma_mul_bounds(self.z as int, other.z as int, COORD_LIMIT as int, COORD_LIMIT as int);
        }
        IVec3 { x: self.x * other.x, y: self.y * other.y, z: self.z * other.z }
    }
}

} // verus!
