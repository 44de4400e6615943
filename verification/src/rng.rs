//! Random sampling: a seedable generator and rejection sampling of
//! points inside the unit ball and the unit disk.
//!
//! The generator is rand's `StdRng`, trusted only for two facts: it can
//! be built from a seed, and a bounded draw stays inside its bound.
//! Everything built on top of those draws is verified.

use vstd::prelude::*;
use crate::fixed::{lemma_mul_abs_bound, SCALE};
use crate::vec3::{smag_sq, v3_bounded, V3, Vec3};

verus! {

#[verifier::external_type_specification]
#[verifier::external_body]
pub struct ExStdRng(rand::rngs::StdRng);

/// A seedable source of uniform random draws.
pub struct Sampler {
    rng: rand::rngs::StdRng,
}

impl Sampler {
    /// Relies on rand's `SeedableRng::seed_from_u64`: builds a
    /// deterministic generator from the given seed.
    #[verifier::external_body]
    pub fn new(seed: u64) -> Sampler {
        Sampler { rng: rand::SeedableRng::seed_from_u64(seed) }
    }

    /// Relies on rand's `Rng::gen_range` over `0..n`: a uniform draw
    /// that lies in the half-open range, which is nonempty since `n > 0`.
    #[verifier::external_body]
    pub fn next_below(&mut self, n: u32) -> (r: u32)
        requires
            n > 0,
        ensures
            r < n,
    {
        rand::Rng::gen_range(&mut self.rng, 0..n)
    }

    /// A uniform fixed-point draw in `[0, 1)`.
    pub fn next_unit(&mut self) -> (r: i64)
        ensures
            0 <= r < SCALE,
    {
        self.next_below(65536) as i64
    }

    /// A uniform fixed-point draw in `[-1, 1]`.
    pub fn next_symmetric(&mut self) -> (r: i64)
        ensures
            -SCALE <= r <= SCALE,
    {
        (self.next_below(131073) as i64) - 65536
    }

    /// A point drawn inside the open unit ball by rejection sampling:
    /// draw each component uniformly in `[-1, 1]` until the squared
    /// magnitude is below one. The attempts are bounded; if every draw
    /// is rejected, the center of the ball is returned.
    pub fn random_in_unit_sphere(&mut self) -> (r: Vec3)
        ensures
            smag_sq(r@) < SCALE * SCALE,
            v3_bounded(r@, SCALE as int),
    {
        let mut attempts: u32 = 0;
        while attempts < 64
            invariant
                true,
            decreases 64 - attempts,
        {
            let x = self.next_symmetric();
            let y = self.next_symmetric();
            let z = self.next_symmetric();
            proof {
                lemma_mul_abs_bound(x as int, x as int, 65536, 65536);
                lemma_mul_abs_bound(y as int, y as int, 65536, 65536);
                lemma_mul_abs_bound(z as int, z as int, 65536, 65536);
            }
            let m: i64 = x * x + y * y + z * z;
            if m < SCALE * SCALE {
                return Vec3::new(x, y, z);
            }
            attempts += 1;
        }
        Vec3::zero()
    }

    /// A point drawn inside the open unit disk in the `z = 0` plane, by
    /// the same bounded rejection sampling as the unit ball.
    pub fn random_in_unit_disk(&mut self) -> (r: Vec3)
        ensures
            smag_sq(r@) < SCALE * SCALE,
            v3_bounded(r@, SCALE as int),
            r@.z == 0,
    {
        let mut attempts: u32 = 0;
        while attempts < 64
            invariant
                true,
            decreases 64 - attempts,
        {
            let x = self.next_symmetric();
            let y = self.next_symmetric();
            proof {
                lemma_mul_abs_bound(x as int, x as int, 65536, 65536);
                lemma_mul_abs_bound(y as int, y as int, 65536, 65536);
            }
            let m: i64 = x * x + y * y;
            if m < SCALE * SCALE {
                return Vec3::new(x, y, 0);
            }
            attempts += 1;
        }
        Vec3::zero()
    }
}

} // verus!
