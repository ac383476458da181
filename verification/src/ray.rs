//! A position type and a parametric ray: the geometric primitives built on
//! the 3-D vector.

use vstd::prelude::*;

use crate::field::Field;
use crate::vector::Vec3D;
use crate::vector::Vector;
use crate::vector::in_i64;

verus! {

/// A position in 3-D space: a point, not a displacement.
#[derive(Debug, PartialEq, Eq, Structural, Copy, Clone)]
pub struct Point3D {
    pub x: i64,
    pub y: i64,
    pub z: i64,
}

impl Point3D {
    /// Construction from the three coordinates.
    pub fn new(x: i64, y: i64, z: i64) -> (r: Self)
        ensures
            r.x == x,
            r.y == y,
            r.z == z,
    {
        Point3D { x, y, z }
    }

    /// Translation by a vector: the one mixed operation between points and
    /// vectors, yielding the point moved by the displacement.
    pub fn translate(&self, rhs: &Vec3D) -> (r: Point3D)
        requires
            in_i64(self.x + rhs.vals()[0]),
            in_i64(self.y + rhs.vals()[1]),
            in_i64(self.z + rhs.vals()[2]),
        ensures
            r.x == self.x + rhs.vals()[0],
            r.y == self.y + rhs.vals()[1],
            r.z == self.z + rhs.vals()[2],
    {
        Point3D::new(self.x + rhs.x(), self.y + rhs.y(), self.z + rhs.z())
    }
}

/// A parametric line: every parameter value `t` names the position
/// `origin + t * direction`.
pub struct Ray {
    pub origin: Point3D,
    pub direction: Vec3D,
}

impl Ray {
    /// Construction from an origin and a direction.
    pub fn new(origin: Point3D, direction: Vec3D) -> (r: Self)
        ensures
            r.origin == origin,
            r.direction == direction,
    {
        Ray { origin, direction }
    }

    /// The position of the ray at parameter `t`: `origin + direction * t`,
    /// for any `t`, negative values and values past 1 included.
    pub fn at(&self, t: i64) -> (r: Point3D)
        requires
            in_i64(self.direction.vals()[0] * t),
            in_i64(self.direction.vals()[1] * t),
            in_i64(self.direction.vals()[2] * t),
            in_i64(self.origin.x + self.direction.vals()[0] * t),
            in_i64(self.origin.y + self.direction.vals()[1] * t),
            in_i64(self.origin.z + self.direction.vals()[2] * t),
        ensures
            r.x == self.origin.x + self.direction.vals()[0] * t,
            r.y == self.origin.y + self.direction.vals()[1] * t,
            r.z == self.origin.z + self.direction.vals()[2] * t,
    {
        proof {
            assert forall|j: int| 0 <= j < 3 implies #[trigger] i64::in_range(
                self.direction.vals()[j] * t.sval(),
            ) by {
                if j == 0 {
                    assert(in_i64(self.direction.vals()[0] * t));
                } else if j == 1 {
                    assert(in_i64(self.direction.vals()[1] * t));
                } else {
                    assert(in_i64(self.direction.vals()[2] * t));
                }
            }
        }
        let scaled = self.direction.scale(t);
        self.origin.translate(&scaled)
    }
}

} // verus!
