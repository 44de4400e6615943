//! Rays: an origin and a direction, with parametric point evaluation.

use vstd::prelude::*;
use crate::fixed::{iabs, lemma_mul_abs_bound, div_trunc, sat_add, sat_narrow, sat64, tdiv, SCALE};
use crate::vec3::{v3_bounded, V3, Vec3};

verus! {

/// A ray of light: an origin and a direction vector.
#[derive(PartialEq, Eq, Structural, Copy, Clone, Debug)]
pub struct Ray {
    pub origin: Vec3,
    pub direction: Vec3,
}

/// The point reached after travelling `t` fixed-point units along the
/// ray: `origin + direction * t / SCALE`, truncated and saturated
/// componentwise.
pub open spec fn spec_point_at(origin: V3, direction: V3, t: int) -> V3 {
    V3 {
        x: sat64(origin.x + sat64(tdiv(direction.x * t, SCALE as int))),
        y: sat64(origin.y + sat64(tdiv(direction.y * t, SCALE as int))),
        z: sat64(origin.z + sat64(tdiv(direction.z * t, SCALE as int))),
    }
}

impl Ray {
    /// The ray whose origin and direction are both zero.
    pub fn zero() -> (r: Ray)
        ensures
            r.origin@ === (V3 { x: 0, y: 0, z: 0 }),
            r.direction@ === (V3 { x: 0, y: 0, z: 0 }),
    {
        Ray { origin: Vec3::zero(), direction: Vec3::zero() }
    }

    /// Construct a ray from an origin and a direction.
    pub fn new(origin: Vec3, direction: Vec3) -> (r: Ray)
        ensures
            r.origin == origin,
            r.direction == direction,
    {
        Ray { origin, direction }
    }

    /// The magnitude of the ray's direction vector.
    pub fn mag(self) -> (r: i64)
        requires
            v3_bounded(self.direction@, 0x4000_0000_0000_0000),
        ensures
            r as int == crate::fixed::sqrt_floor(crate::vec3::smag_sq(self.direction@)),
    {
        self.direction.mag()
    }

    /// The point reached after travelling `t` fixed-point units.
    pub fn point_at_parameter(self, parameter: i64) -> (r: Vec3)
        requires
            v3_bounded(self.direction@, 0x4000_0000_0000_0000),
        ensures
            r@ === spec_point_at(self.origin@, self.direction@, parameter as int),
    {
        proof {
            lemma_mul_abs_bound(
                self.direction@.x,
                parameter as int,
                0x4000_0000_0000_0000,
                0x8000_0000_0000_0000,
            );
            lemma_mul_abs_bound(
                self.direction@.y,
                parameter as int,
                0x4000_0000_0000_0000,
                0x8000_0000_0000_0000,
            );
            lemma_mul_abs_bound(
                self.direction@.z,
                parameter as int,
                0x4000_0000_0000_0000,
                0x8000_0000_0000_0000,
            );
        }
        let x = sat_add(
            self.origin.x,
            sat_narrow(div_trunc((self.direction.x as i128) * (parameter as i128), SCALE as i128)),
        );
        let y = sat_add(
            self.origin.y,
            sat_narrow(div_trunc((self.direction.y as i128) * (parameter as i128), SCALE as i128)),
        );
        let z = sat_add(
            self.origin.z,
            sat_narrow(div_trunc((self.direction.z as i128) * (parameter as i128), SCALE as i128)),
        );
        Vec3 { x, y, z }
    }
}

} // verus!
