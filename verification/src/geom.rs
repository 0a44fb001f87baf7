//! Shared vector algebra: immutable 2D and 3D value types used by the
//! slicing and meshing stages.

use crate::fixed::{add_v, div_v, mul_v, sqrt_v, sub_v, Fx};
use vstd::prelude::*;

verus! {

/// A point or displacement in the plane.
#[derive(Clone, Copy, PartialEq, Eq, Structural, Debug)]
pub struct Vec2(pub Fx, pub Fx);

impl Vec2 {
    pub fn translate(&self, amount: Vec2) -> (r: Vec2)
        ensures
            r.0@ == add_v(self.0@, amount.0@),
            r.1@ == add_v(self.1@, amount.1@),
    {
        Vec2(self.0.add(amount.0), self.1.add(amount.1))
    }

    pub fn scale(&self, factor: Fx) -> (r: Vec2)
        ensures
            r.0@ == mul_v(self.0@, factor@),
            r.1@ == mul_v(self.1@, factor@),
    {
        Vec2(self.0.mul(factor), self.1.mul(factor))
    }
}

/// A point or displacement in space.
#[derive(Clone, Copy, PartialEq, Eq, Structural, Debug)]
pub struct Vec3(pub Fx, pub Fx, pub Fx);

/// Componentwise difference `a - b`.
pub open spec fn sub_vec3(a: Vec3, b: Vec3) -> Vec3 {
    Vec3(
        Fx { raw: sub_v(a.0@, b.0@) as i64 },
        Fx { raw: sub_v(a.1@, b.1@) as i64 },
        Fx { raw: sub_v(a.2@, b.2@) as i64 },
    )
}

/// The cross product's determinant expansion.
pub open spec fn cross_vec3(a: Vec3, b: Vec3) -> Vec3 {
    Vec3(
        Fx { raw: sub_v(mul_v(a.1@, b.2@), mul_v(a.2@, b.1@)) as i64 },
        Fx { raw: sub_v(mul_v(a.2@, b.0@), mul_v(a.0@, b.2@)) as i64 },
        Fx { raw: sub_v(mul_v(a.0@, b.1@), mul_v(a.1@, b.0@)) as i64 },
    )
}

/// Squared length, then the fixed-point root.
pub open spec fn length_vec3(v: Vec3) -> int {
    sqrt_v(add_v(add_v(mul_v(v.0@, v.0@), mul_v(v.1@, v.1@)), mul_v(v.2@, v.2@)))
}

/// Scale to unit length; the zero vector (whose length a real division
/// could not handle) stays the zero vector.
pub open spec fn normalize_vec3(v: Vec3) -> Vec3 {
    let len = length_vec3(v);
    if len == 0 {
        Vec3(Fx { raw: 0 }, Fx { raw: 0 }, Fx { raw: 0 })
    } else {
        Vec3(
            Fx { raw: div_v(v.0@, len) as i64 },
            Fx { raw: div_v(v.1@, len) as i64 },
            Fx { raw: div_v(v.2@, len) as i64 },
        )
    }
}

impl Vec3 {
    /// The difference `self - other`, one component at a time.
    pub fn sub(&self, other: &Vec3) -> (r: Vec3)
        ensures
            r == sub_vec3(*self, *other),
    {
        Vec3(self.0.sub(other.0), self.1.sub(other.1), self.2.sub(other.2))
    }

    /// `a x b` as the determinant:
    ///
    /// `(ay bz - az by, az bx - ax bz, ax by - ay bx)`.
    pub fn cross(&self, other: &Vec3) -> (r: Vec3)
        ensures
            r == cross_vec3(*self, *other),
    {
        let Vec3(ax, ay, az) = *self;
        let Vec3(bx, by, bz) = *other;
        let x = ay.mul(bz).sub(az.mul(by));
        let y = az.mul(bx).sub(ax.mul(bz));
        let z = ax.mul(by).sub(ay.mul(bx));
        Vec3(x, y, z)
    }

    /// Scale to unit length; the zero vector stays put.
    pub fn normalize(&self) -> (r: Vec3)
        ensures
            r == normalize_vec3(*self),
    {
        let len = self.0.mul(self.0).add(self.1.mul(self.1)).add(self.2.mul(self.2)).sqrt();
        if len.raw == 0 {
            Vec3(Fx { raw: 0 }, Fx { raw: 0 }, Fx { raw: 0 })
        } else {
            Vec3(self.0.div(len), self.1.div(len), self.2.div(len))
        }
    }
}

/// Three corners, wound counter-clockwise seen from outside.
#[derive(Clone, Copy, PartialEq, Eq, Structural, Debug)]
pub struct Triangle(pub Vec3, pub Vec3, pub Vec3);

/// The (unnormalised) outward normal: the cross product of the two edges
/// leaving the first corner.
pub open spec fn normal_of(t: Triangle) -> Vec3 {
    cross_vec3(sub_vec3(t.1, t.0), sub_vec3(t.2, t.0))
}

impl Triangle {
    pub fn compute_normal(&self) -> (r: Vec3)
        ensures
            r == normal_of(*self),
    {
        let Triangle(v1, v2, v3) = *self;
        let ab = v2.sub(&v1);
        let ac = v3.sub(&v1);
        ab.cross(&ac)
    }
}

} // verus!
