//! Three-component vectors in 16.16 fixed point, with an exact
//! integer-valued model (`V3`) and proved algebraic laws.

use vstd::prelude::*;
use crate::fixed::{
    fx_div, fx_mul, iabs, is_sqrt_floor, lemma_mul_abs_bound, lemma_sqrt_floor_exists,
    lemma_sqrt_floor_unique, div_trunc, isqrt, mul_fx, div_fx, sat_add, sat_narrow, sat_sub,
    sat64, sqrt_floor, tdiv, SCALE,
};

verus! {

/// Mathematical model of a vector: unbounded integer components.
pub ghost struct V3 {
    pub x: int,
    pub y: int,
    pub z: int,
}

/// Exact componentwise sum.
pub open spec fn v3_add(a: V3, b: V3) -> V3 {
    V3 { x: a.x + b.x, y: a.y + b.y, z: a.z + b.z }
}

/// Exact componentwise difference.
pub open spec fn v3_sub(a: V3, b: V3) -> V3 {
    V3 { x: a.x - b.x, y: a.y - b.y, z: a.z - b.z }
}

/// Exact scaling by an integer factor.
pub open spec fn v3_scale(k: int, a: V3) -> V3 {
    V3 { x: k * a.x, y: k * a.y, z: k * a.z }
}

/// Exact dot product. The result carries twice the fixed-point scale.
pub open spec fn sdot(a: V3, b: V3) -> int {
    a.x * b.x + a.y * b.y + a.z * b.z
}

/// Exact squared magnitude, at twice the fixed-point scale.
pub open spec fn smag_sq(a: V3) -> int {
    sdot(a, a)
}

/// Exact cross product. The components carry twice the fixed-point scale.
pub open spec fn scross(a: V3, b: V3) -> V3 {
    V3 {
        x: a.y * b.z - a.z * b.y,
        y: a.z * b.x - a.x * b.z,
        z: a.x * b.y - a.y * b.x,
    }
}

/// Exact mirror reflection of `d` about `n`, carrying three times the
/// fixed-point scale: `SCALE * SCALE * d - 2 * sdot(d, n) * n`.
pub open spec fn sreflect(d: V3, n: V3) -> V3 {
    v3_sub(v3_scale(SCALE as int * SCALE as int, d), v3_scale(2 * sdot(d, n), n))
}

/// All components within `m` in absolute value.
pub open spec fn v3_bounded(a: V3, m: int) -> bool {
    iabs(a.x) <= m && iabs(a.y) <= m && iabs(a.z) <= m
}

/// The zero vector's model.
pub open spec fn v3_zero() -> V3 {
    V3 { x: 0, y: 0, z: 0 }
}

/// All components nonnegative.
pub open spec fn v3_nonneg(a: V3) -> bool {
    a.x >= 0 && a.y >= 0 && a.z >= 0
}

/// Componentwise saturating negation.
pub open spec fn v3_sat_neg(a: V3) -> V3 {
    V3 { x: sat64(-a.x), y: sat64(-a.y), z: sat64(-a.z) }
}

/// A model vector whose components are in the `i64` range, as a vector.
pub open spec fn v3_to_vec3(a: V3) -> Vec3 {
    Vec3 { x: a.x as i64, y: a.y as i64, z: a.z as i64 }
}

/// Componentwise saturating sum, as the executable addition computes it.
pub open spec fn v3_sat_add(a: V3, b: V3) -> V3 {
    V3 { x: sat64(a.x + b.x), y: sat64(a.y + b.y), z: sat64(a.z + b.z) }
}

/// Componentwise saturating difference.
pub open spec fn v3_sat_sub(a: V3, b: V3) -> V3 {
    V3 { x: sat64(a.x - b.x), y: sat64(a.y - b.y), z: sat64(a.z - b.z) }
}

/// Componentwise fixed-point product.
pub open spec fn v3_fx_mul(a: V3, b: V3) -> V3 {
    V3 { x: fx_mul(a.x, b.x), y: fx_mul(a.y, b.y), z: fx_mul(a.z, b.z) }
}

/// Componentwise fixed-point quotient.
pub open spec fn v3_fx_div(a: V3, b: V3) -> V3 {
    V3 { x: fx_div(a.x, b.x), y: fx_div(a.y, b.y), z: fx_div(a.z, b.z) }
}

/// Fixed-point scaling by `k`.
pub open spec fn v3_fx_scale(a: V3, k: int) -> V3 {
    V3 { x: fx_mul(a.x, k), y: fx_mul(a.y, k), z: fx_mul(a.z, k) }
}

/// The cross product as executed: exact, then rescaled by `SCALE`
/// truncating toward zero, then saturated.
pub open spec fn v3_cross_fx(a: V3, b: V3) -> V3 {
    let c = scross(a, b);
    V3 {
        x: sat64(tdiv(c.x, SCALE as int)),
        y: sat64(tdiv(c.y, SCALE as int)),
        z: sat64(tdiv(c.z, SCALE as int)),
    }
}

/// The reflection as executed: exact, then rescaled by `SCALE * SCALE`
/// truncating toward zero, then saturated.
pub open spec fn v3_reflect_fx(d: V3, n: V3) -> V3 {
    let r = sreflect(d, n);
    let s2 = SCALE as int * SCALE as int;
    V3 {
        x: sat64(tdiv(r.x, s2)),
        y: sat64(tdiv(r.y, s2)),
        z: sat64(tdiv(r.z, s2)),
    }
}

/// The normalization as executed: each component is scaled by
/// `SCALE` and divided by the magnitude's square-root floor.
pub open spec fn v3_normalize_fx(a: V3) -> V3 {
    let m = sqrt_floor(smag_sq(a));
    V3 {
        x: sat64(tdiv(a.x * SCALE, m)),
        y: sat64(tdiv(a.y * SCALE, m)),
        z: sat64(tdiv(a.z * SCALE, m)),
    }
}

/// A vector with three 16.16 fixed-point components.
#[derive(PartialEq, Eq, Structural, Copy, Clone, Debug)]
pub struct Vec3 {
    pub x: i64,
    pub y: i64,
    pub z: i64,
}

impl View for Vec3 {
    type V = V3;

    open spec fn view(&self) -> V3 {
        V3 { x: self.x as int, y: self.y as int, z: self.z as int }
    }
}

/// Convenience function to construct a vector.
pub fn vec3(x: i64, y: i64, z: i64) -> (r: Vec3)
    ensures
        r@ === (V3 { x: x as int, y: y as int, z: z as int }),
{
    Vec3::new(x, y, z)
}

impl Vec3 {
    /// Construct a new vector from three fixed-point components.
    pub fn new(x: i64, y: i64, z: i64) -> (r: Vec3)
        ensures
            r@ === (V3 { x: x as int, y: y as int, z: z as int }),
    {
        Vec3 { x, y, z }
    }

    /// A vector with all components equal to the same value.
    pub fn all(f: i64) -> (r: Vec3)
        ensures
            r@ === (V3 { x: f as int, y: f as int, z: f as int }),
    {
        Vec3 { x: f, y: f, z: f }
    }

    /// The zero vector.
    pub fn zero() -> (r: Vec3)
        ensures
            r@ === (V3 { x: 0, y: 0, z: 0 }),
    {
        Vec3 { x: 0, y: 0, z: 0 }
    }

    /// The all-ones vector: each component is one whole fixed-point unit.
    pub fn one() -> (r: Vec3)
        ensures
            r@ === (V3 { x: SCALE as int, y: SCALE as int, z: SCALE as int }),
    {
        Vec3 { x: SCALE, y: SCALE, z: SCALE }
    }

    /// Saturating componentwise sum.
    pub fn add(self, rhs: Vec3) -> (r: Vec3)
        ensures
            r@ === v3_sat_add(self@, rhs@),
    {
        Vec3 { x: sat_add(self.x, rhs.x), y: sat_add(self.y, rhs.y), z: sat_add(self.z, rhs.z) }
    }

    /// Saturating componentwise difference.
    pub fn sub(self, rhs: Vec3) -> (r: Vec3)
        ensures
            r@ === v3_sat_sub(self@, rhs@),
    {
        Vec3 { x: sat_sub(self.x, rhs.x), y: sat_sub(self.y, rhs.y), z: sat_sub(self.z, rhs.z) }
    }

    /// Componentwise fixed-point product.
    pub fn mul(self, rhs: Vec3) -> (r: Vec3)
        ensures
            r@ === v3_fx_mul(self@, rhs@),
    {
        Vec3 { x: mul_fx(self.x, rhs.x), y: mul_fx(self.y, rhs.y), z: mul_fx(self.z, rhs.z) }
    }

    /// Componentwise fixed-point quotient.
    pub fn div(self, rhs: Vec3) -> (r: Vec3)
        requires
            rhs@.x != 0,
            rhs@.y != 0,
            rhs@.z != 0,
        ensures
            r@ === v3_fx_div(self@, rhs@),
    {
        Vec3 { x: div_fx(self.x, rhs.x), y: div_fx(self.y, rhs.y), z: div_fx(self.z, rhs.z) }
    }

    /// Fixed-point scaling by `k`.
    pub fn scale(self, k: i64) -> (r: Vec3)
        ensures
            r@ === v3_fx_scale(self@, k as int),
    {
        Vec3 { x: mul_fx(self.x, k), y: mul_fx(self.y, k), z: mul_fx(self.z, k) }
    }

    /// Fixed-point division by the scalar `k`.
    pub fn div_scalar(self, k: i64) -> (r: Vec3)
        requires
            k != 0,
        ensures
            r@ === v3_fx_div(self@, V3 { x: k as int, y: k as int, z: k as int }),
    {
        Vec3 { x: div_fx(self.x, k), y: div_fx(self.y, k), z: div_fx(self.z, k) }
    }

    /// Saturating negation.
    pub fn neg(self) -> (r: Vec3)
        ensures
            r@ === (V3 { x: sat64(-self@.x), y: sat64(-self@.y), z: sat64(-self@.z) }),
    {
        Vec3 {
            x: sat_narrow(-(self.x as i128)),
            y: sat_narrow(-(self.y as i128)),
            z: sat_narrow(-(self.z as i128)),
        }
    }

    /// Exact dot product, at twice the fixed-point scale.
    pub fn dot(self, rhs: Vec3) -> (r: i128)
        requires
            v3_bounded(self@, 0x4000_0000_0000_0000),
            v3_bounded(rhs@, 0x4000_0000_0000_0000),
        ensures
            r as int == sdot(self@, rhs@),
    {
        proof {
            lemma_mul_abs_bound(self@.x, rhs@.x, 0x4000_0000_0000_0000, 0x4000_0000_0000_0000);
            lemma_mul_abs_bound(self@.y, rhs@.y, 0x4000_0000_0000_0000, 0x4000_0000_0000_0000);
            lemma_mul_abs_bound(self@.z, rhs@.z, 0x4000_0000_0000_0000, 0x4000_0000_0000_0000);
        }
        (self.x as i128) * (rhs.x as i128) + (self.y as i128) * (rhs.y as i128)
            + (self.z as i128) * (rhs.z as i128)
    }

    /// Exact squared magnitude, at twice the fixed-point scale.
    pub fn mag_sq(self) -> (r: i128)
        requires
            v3_bounded(self@, 0x4000_0000_0000_0000),
        ensures
            r as int == smag_sq(self@),
            r >= 0,
    {
        let r = self.dot(self);
        proof {
            lemma_smag_sq_nonneg(self@);
        }
        r
    }

    /// The magnitude: the square-root floor of the squared magnitude,
    /// at the fixed-point scale.
    pub fn mag(self) -> (r: i64)
        requires
            v3_bounded(self@, 0x4000_0000_0000_0000),
        ensures
            r as int == sqrt_floor(smag_sq(self@)),
            is_sqrt_floor(smag_sq(self@), r as int),
            r >= 0,
    {
        let m = self.mag_sq();
        let s = isqrt(m as u128);
        proof {
            let n = smag_sq(self@);
            lemma_sqrt_floor_exists(n);
            assert(sqrt_floor(n) * sqrt_floor(n) <= n);
            assert(n <= 3 * 0x4000_0000_0000_0000 * 0x4000_0000_0000_0000) by (nonlinear_arith)
                requires
                    n == smag_sq(self@),
                    v3_bounded(self@, 0x4000_0000_0000_0000);
            assert(sqrt_floor(n) < 0x8000_0000_0000_0000) by (nonlinear_arith)
                requires
                    is_sqrt_floor(n, sqrt_floor(n)),
                    n <= 3 * 0x4000_0000_0000_0000 * 0x4000_0000_0000_0000;
        }
        s as i64
    }

    /// Scale the vector so that its magnitude is one fixed-point unit,
    /// to within truncation error.
    pub fn normalize(self) -> (r: Vec3)
        requires
            v3_bounded(self@, 0x4000_0000_0000_0000),
            smag_sq(self@) > 0,
        ensures
            r@ === v3_normalize_fx(self@),
    {
        let m = self.mag();
        proof {
            let n = smag_sq(self@);
            assert(sqrt_floor(n) >= 1) by {
                lemma_sqrt_floor_exists(n);
                assert(is_sqrt_floor(n, sqrt_floor(n)));
            }
            lemma_mul_abs_bound(self@.x, SCALE as int, 0x4000_0000_0000_0000, 65536);
            lemma_mul_abs_bound(self@.y, SCALE as int, 0x4000_0000_0000_0000, 65536);
            lemma_mul_abs_bound(self@.z, SCALE as int, 0x4000_0000_0000_0000, 65536);
        }
        Vec3 {
            x: sat_narrow(div_trunc((self.x as i128) * (SCALE as i128), m as i128)),
            y: sat_narrow(div_trunc((self.y as i128) * (SCALE as i128), m as i128)),
            z: sat_narrow(div_trunc((self.z as i128) * (SCALE as i128), m as i128)),
        }
    }

    /// Exact cross product, rescaled back to the fixed-point scale.
    pub fn cross(self, rhs: Vec3) -> (r: Vec3)
        requires
            v3_bounded(self@, 0x4000_0000_0000_0000),
            v3_bounded(rhs@, 0x4000_0000_0000_0000),
        ensures
            r@ === v3_cross_fx(self@, rhs@),
            self == rhs ==> r@ === (V3 { x: 0, y: 0, z: 0 }),
    {
        proof {
            lemma_mul_abs_bound(self@.y, rhs@.z, 0x4000_0000_0000_0000, 0x4000_0000_0000_0000);
            lemma_mul_abs_bound(self@.z, rhs@.y, 0x4000_0000_0000_0000, 0x4000_0000_0000_0000);
            lemma_mul_abs_bound(self@.z, rhs@.x, 0x4000_0000_0000_0000, 0x4000_0000_0000_0000);
            lemma_mul_abs_bound(self@.x, rhs@.z, 0x4000_0000_0000_0000, 0x4000_0000_0000_0000);
            lemma_mul_abs_bound(self@.x, rhs@.y, 0x4000_0000_0000_0000, 0x4000_0000_0000_0000);
            lemma_mul_abs_bound(self@.y, rhs@.x, 0x4000_0000_0000_0000, 0x4000_0000_0000_0000);
            if self == rhs {
                lemma_cross_self(self@);
            }
        }
        Vec3 {
            x: sat_narrow(div_trunc(
                (self.y as i128) * (rhs.z as i128) - (self.z as i128) * (rhs.y as i128),
                SCALE as i128,
            )),
            y: sat_narrow(div_trunc(
                (self.z as i128) * (rhs.x as i128) - (self.x as i128) * (rhs.z as i128),
                SCALE as i128,
            )),
            z: sat_narrow(div_trunc(
                (self.x as i128) * (rhs.y as i128) - (self.y as i128) * (rhs.x as i128),
                SCALE as i128,
            )),
        }
    }

    /// Whether every component lies within `m` in absolute value.
    pub fn within(self, m: i64) -> (r: bool)
        requires
            m >= 0,
        ensures
            r == v3_bounded(self@, m as int),
    {
        -m <= self.x && self.x <= m && -m <= self.y && self.y <= m && -m <= self.z && self.z <= m
    }

    /// Mirror reflection of this direction about `normal`.
    pub fn reflect(self, normal: Vec3) -> (r: Vec3)
        requires
            v3_bounded(self@, 0x4000_0000),
            v3_bounded(normal@, 0x4000_0000),
        ensures
            r@ === v3_reflect_fx(self@, normal@),
    {
        let d = self.dot(normal);
        proof {
            lemma_mul_abs_bound(self@.x, 65536int * 65536, 0x4000_0000int, 65536int * 65536);
            lemma_mul_abs_bound(self@.y, 65536int * 65536, 0x4000_0000int, 65536int * 65536);
            lemma_mul_abs_bound(self@.z, 65536int * 65536, 0x4000_0000int, 65536int * 65536);
            lemma_sdot_bound(self@, normal@, 0x4000_0000, 0x4000_0000);
            lemma_mul_abs_bound(
                2 * sdot(self@, normal@),
                normal@.x,
                6int * 0x4000_0000 * 0x4000_0000,
                0x4000_0000int,
            );
            lemma_mul_abs_bound(
                2 * sdot(self@, normal@),
                normal@.y,
                6int * 0x4000_0000 * 0x4000_0000,
                0x4000_0000int,
            );
            lemma_mul_abs_bound(
                2 * sdot(self@, normal@),
                normal@.z,
                6int * 0x4000_0000 * 0x4000_0000,
                0x4000_0000int,
            );
        }
        let s2: i128 = (SCALE as i128) * (SCALE as i128);
        let two_d: i128 = 2 * d;
        Vec3 {
            x: sat_narrow(div_trunc(s2 * (self.x as i128) - two_d * (normal.x as i128), s2)),
            y: sat_narrow(div_trunc(s2 * (self.y as i128) - two_d * (normal.y as i128), s2)),
            z: sat_narrow(div_trunc(s2 * (self.z as i128) - two_d * (normal.z as i128), s2)),
        }
    }
}

/// Bound on a dot product of componentwise-bounded vectors.
pub proof fn lemma_sdot_bound(a: V3, b: V3, m: int, n: int)
    requires
        v3_bounded(a, m),
        v3_bounded(b, n),
    ensures
        iabs(sdot(a, b)) <= 3 * (m * n),
{
    lemma_mul_abs_bound(a.x, b.x, m, n);
    lemma_mul_abs_bound(a.y, b.y, m, n);
    lemma_mul_abs_bound(a.z, b.z, m, n);
}

/// A squared magnitude is never negative.
pub proof fn lemma_smag_sq_nonneg(a: V3)
    by (nonlinear_arith)
    ensures
        smag_sq(a) >= 0,
{
}

/// The dot product is symmetric.
pub proof fn lemma_dot_comm(a: V3, b: V3)
    by (nonlinear_arith)
    ensures
        sdot(a, b) == sdot(b, a),
{
}

/// Distribution of one product over a two-term linear combination.
proof fn lemma_lin_dist(j: int, k: int, p: int, q: int, c: int)
    by (nonlinear_arith)
    ensures
        (j * p + k * q) * c == j * (p * c) + k * (q * c),
{
}

/// The dot product is bilinear: linear in each argument.
pub proof fn lemma_dot_bilinear(a: V3, b: V3, c: V3, j: int, k: int)
    ensures
        sdot(v3_add(v3_scale(j, a), v3_scale(k, b)), c) == j * sdot(a, c) + k * sdot(b, c),
        sdot(c, v3_add(v3_scale(j, a), v3_scale(k, b))) == j * sdot(c, a) + k * sdot(c, b),
{
    let s = v3_add(v3_scale(j, a), v3_scale(k, b));
    lemma_lin_dist(j, k, a.x, b.x, c.x);
    lemma_lin_dist(j, k, a.y, b.y, c.y);
    lemma_lin_dist(j, k, a.z, b.z, c.z);
    assert(j * sdot(a, c) == j * (a.x * c.x) + j * (a.y * c.y) + j * (a.z * c.z))
        by (nonlinear_arith);
    assert(k * sdot(b, c) == k * (b.x * c.x) + k * (b.y * c.y) + k * (b.z * c.z))
        by (nonlinear_arith);
    lemma_dot_comm(s, c);
    lemma_dot_comm(a, c);
    lemma_dot_comm(b, c);
    assert(j * sdot(c, a) == j * sdot(a, c) && k * sdot(c, b) == k * sdot(b, c))
        by (nonlinear_arith)
        requires
            sdot(c, a) == sdot(a, c),
            sdot(c, b) == sdot(b, c);
}

/// The cross product is bilinear: linear in each argument.
pub proof fn lemma_cross_bilinear(a: V3, b: V3, c: V3, j: int, k: int)
    ensures
        scross(v3_add(v3_scale(j, a), v3_scale(k, b)), c)
            === v3_add(v3_scale(j, scross(a, c)), v3_scale(k, scross(b, c))),
        scross(c, v3_add(v3_scale(j, a), v3_scale(k, b)))
            === v3_add(v3_scale(j, scross(c, a)), v3_scale(k, scross(c, b))),
{
    lemma_lin_dist(j, k, a.y, b.y, c.z);
    lemma_lin_dist(j, k, a.z, b.z, c.y);
    lemma_lin_dist(j, k, a.z, b.z, c.x);
    lemma_lin_dist(j, k, a.x, b.x, c.z);
    lemma_lin_dist(j, k, a.x, b.x, c.y);
    lemma_lin_dist(j, k, a.y, b.y, c.x);
    assert forall|p: int, q: int| true implies #[trigger] (j * (p - q)) == j * p - j * q by {
        lemma_mul_sub_dist(j, p, q);
    }
    assert forall|p: int, q: int| true implies #[trigger] (k * (p - q)) == k * p - k * q by {
        lemma_mul_sub_dist(k, p, q);
    }
    assert forall|p: int, q: int| true implies #[trigger] (c.x * (j * p + k * q)) == j * (p * c.x)
        + k * (q * c.x) by {
        lemma_mul_lin_comm(j, k, p, q, c.x);
    }
    assert forall|p: int, q: int| true implies #[trigger] (c.y * (j * p + k * q)) == j * (p * c.y)
        + k * (q * c.y) by {
        lemma_mul_lin_comm(j, k, p, q, c.y);
    }
    assert forall|p: int, q: int| true implies #[trigger] (c.z * (j * p + k * q)) == j * (p * c.z)
        + k * (q * c.z) by {
        lemma_mul_lin_comm(j, k, p, q, c.z);
    }
}

/// Negation moves across a product.
proof fn lemma_neg_mul(a: int, b: int)
    by (nonlinear_arith)
    ensures
        (-a) * b == -(a * b),
{
}

/// Multiplication distributes over subtraction.
proof fn lemma_mul_sub_dist(j: int, p: int, q: int)
    by (nonlinear_arith)
    ensures
        j * (p - q) == j * p - j * q,
{
}

/// A product with a linear combination, with the combination on the right.
proof fn lemma_mul_lin_comm(j: int, k: int, p: int, q: int, c: int)
    by (nonlinear_arith)
    ensures
        c * (j * p + k * q) == j * (p * c) + k * (q * c),
{
}

/// The cross product of a vector with itself is the zero vector.
pub proof fn lemma_cross_self(a: V3)
    by (nonlinear_arith)
    ensures
        scross(a, a) === (V3 { x: 0, y: 0, z: 0 }),
{
}

/// The cross product is orthogonal to both of its arguments.
pub proof fn lemma_dot_cross_orthogonal(a: V3, b: V3)
    by (nonlinear_arith)
    ensures
        sdot(a, scross(a, b)) == 0,
        sdot(b, scross(a, b)) == 0,
{
}

/// The executed reflection of geometry-bounded vectors stays within
/// `2^61`, so later sums and dot products cannot overflow.
pub proof fn lemma_reflect_fx_bounded(d: V3, n: V3)
    ensures
        v3_bounded(d, 0x4000_0000) && v3_bounded(n, 0x4000_0000)
            ==> v3_bounded(v3_reflect_fx(d, n), 0x2000_0000_0000_0000),
{
    if v3_bounded(d, 0x4000_0000) && v3_bounded(n, 0x4000_0000) {
        let r = sreflect(d, n);
        lemma_sdot_bound(d, n, 0x4000_0000, 0x4000_0000);
        lemma_mul_abs_bound(2 * sdot(d, n), n.x, 0x6000_0000_0000_0000, 0x4000_0000);
        lemma_mul_abs_bound(2 * sdot(d, n), n.y, 0x6000_0000_0000_0000, 0x4000_0000);
        lemma_mul_abs_bound(2 * sdot(d, n), n.z, 0x6000_0000_0000_0000, 0x4000_0000);
        lemma_mul_abs_bound(65536int * 65536, d.x, 65536int * 65536, 0x4000_0000);
        lemma_mul_abs_bound(65536int * 65536, d.y, 65536int * 65536, 0x4000_0000);
        lemma_mul_abs_bound(65536int * 65536, d.z, 65536int * 65536, 0x4000_0000);
        crate::fixed::lemma_tdiv_abs_bound(r.x, 65536int * 65536, 0x2000_0000_0000_0000_0000_0000);
        crate::fixed::lemma_tdiv_abs_bound(r.y, 65536int * 65536, 0x2000_0000_0000_0000_0000_0000);
        crate::fixed::lemma_tdiv_abs_bound(r.z, 65536int * 65536, 0x2000_0000_0000_0000_0000_0000);
        crate::fixed::lemma_sat64_abs(tdiv(r.x, 65536int * 65536));
        crate::fixed::lemma_sat64_abs(tdiv(r.y, 65536int * 65536));
        crate::fixed::lemma_sat64_abs(tdiv(r.z, 65536int * 65536));
    }
}

/// The executed cross product of a bounded vector with a unit-bounded
/// vector stays within twice the first bound.
pub proof fn lemma_cross_fx_bounded(a: V3, b: V3, m: int)
    requires
        0 <= m,
        v3_bounded(a, m),
        v3_bounded(b, SCALE as int),
    ensures
        v3_bounded(v3_cross_fx(a, b), 2 * m),
{
    let c = scross(a, b);
    lemma_mul_abs_bound(a.y, b.z, m, 65536);
    lemma_mul_abs_bound(a.z, b.y, m, 65536);
    lemma_mul_abs_bound(a.z, b.x, m, 65536);
    lemma_mul_abs_bound(a.x, b.z, m, 65536);
    lemma_mul_abs_bound(a.x, b.y, m, 65536);
    lemma_mul_abs_bound(a.y, b.x, m, 65536);
    crate::fixed::lemma_tdiv_abs_bound(c.x, 65536, 2 * (m * 65536));
    crate::fixed::lemma_tdiv_abs_bound(c.y, 65536, 2 * (m * 65536));
    crate::fixed::lemma_tdiv_abs_bound(c.z, 65536, 2 * (m * 65536));
    assert(2 * (m * 65536) == 65536 * (2 * m)) by (nonlinear_arith);
    vstd::arithmetic::div_mod::lemma_div_multiples_vanish(2 * m, 65536);
    crate::fixed::lemma_sat64_abs(tdiv(c.x, 65536));
    crate::fixed::lemma_sat64_abs(tdiv(c.y, 65536));
    crate::fixed::lemma_sat64_abs(tdiv(c.z, 65536));
}

/// A normalized vector's components never exceed one whole unit: each
/// component is at most the magnitude, so dividing by the magnitude's
/// square-root floor leaves at most `SCALE`.
pub proof fn lemma_normalize_fx_bounded(a: V3)
    requires
        smag_sq(a) > 0,
    ensures
        v3_bounded(v3_normalize_fx(a), SCALE as int),
{
    let n = smag_sq(a);
    lemma_sqrt_floor_exists(n);
    let l = sqrt_floor(n);
    assert(iabs(a.x) <= l && iabs(a.y) <= l && iabs(a.z) <= l) by (nonlinear_arith)
        requires
            n == a.x * a.x + a.y * a.y + a.z * a.z,
            0 <= l,
            l * l <= n,
            n < (l + 1) * (l + 1);
    lemma_mul_abs_bound(a.x, SCALE as int, l, 65536);
    lemma_mul_abs_bound(a.y, SCALE as int, l, 65536);
    lemma_mul_abs_bound(a.z, SCALE as int, l, 65536);
    crate::fixed::lemma_tdiv_abs_bound(a.x * SCALE, l, l * 65536);
    crate::fixed::lemma_tdiv_abs_bound(a.y * SCALE, l, l * 65536);
    crate::fixed::lemma_tdiv_abs_bound(a.z * SCALE, l, l * 65536);
    vstd::arithmetic::div_mod::lemma_div_multiples_vanish(65536, l);
    assert(l * 65536 == l * 65536int);
    crate::fixed::lemma_sat64_abs(tdiv(a.x * SCALE, l));
    crate::fixed::lemma_sat64_abs(tdiv(a.y * SCALE, l));
    crate::fixed::lemma_sat64_abs(tdiv(a.z * SCALE, l));
}

/// Normalization yields a unit vector to within truncation tolerance:
/// for any vector of length at least one, the squared magnitude of the
/// normalized vector differs from one — squared, at the fixed-point
/// scale — by at most `16 * SCALE`, a relative error below `1/4096`.
/// Vectors shorter than one unit are excluded: dividing by their small
/// square-root floor distorts the direction too coarsely.
pub proof fn lemma_normalize_near_unit(a: V3)
    requires
        smag_sq(a) >= SCALE as int * SCALE,
    ensures
        iabs(smag_sq(v3_normalize_fx(a)) - SCALE as int * SCALE) <= 16 * SCALE,
{
    let s: int = 65536;
    let n = smag_sq(a);
    lemma_sqrt_floor_exists(n);
    let l = sqrt_floor(n);
    assert(l >= s && iabs(a.x) <= l && iabs(a.y) <= l && iabs(a.z) <= l && n <= l * l + 2 * l)
        by (nonlinear_arith)
        requires
            n == a.x * a.x + a.y * a.y + a.z * a.z,
            0 <= l,
            l * l <= n,
            n < (l + 1) * (l + 1),
            n >= s * s,
            s == 65536;
    let qx = tdiv(a.x * s, l);
    let qy = tdiv(a.y * s, l);
    let qz = tdiv(a.z * s, l);
    lemma_mul_abs_bound(a.x, s, l, s);
    lemma_mul_abs_bound(a.y, s, l, s);
    lemma_mul_abs_bound(a.z, s, l, s);
    crate::fixed::lemma_tdiv_abs_bound(a.x * s, l, l * s);
    crate::fixed::lemma_tdiv_abs_bound(a.y * s, l, l * s);
    crate::fixed::lemma_tdiv_abs_bound(a.z * s, l, l * s);
    vstd::arithmetic::div_mod::lemma_div_multiples_vanish(s, l);
    assert(iabs(qx) <= s && iabs(qy) <= s && iabs(qz) <= s);
    let nf = v3_normalize_fx(a);
    assert(nf.x == qx && nf.y == qy && nf.z == qz);
    let mm = smag_sq(nf);
    let rx = a.x * s - qx * l;
    let ry = a.y * s - qy * l;
    let rz = a.z * s - qz * l;
    crate::fixed::lemma_tdiv_rem(a.x * s, l);
    crate::fixed::lemma_tdiv_rem(a.y * s, l);
    crate::fixed::lemma_tdiv_rem(a.z * s, l);
    lemma_rescale_square(a.x, rx, s, qx, l);
    lemma_rescale_square(a.y, ry, s, qy, l);
    lemma_rescale_square(a.z, rz, s, qz, l);
    assert((l * l) * mm == (l * l) * (qx * qx) + (l * l) * (qy * qy) + (l * l) * (qz * qz))
        by (nonlinear_arith)
        requires mm == qx * qx + qy * qy + qz * qz;
    assert((s * s) * n == (s * s) * (a.x * a.x) + (s * s) * (a.y * a.y) + (s * s) * (a.z * a.z))
        by (nonlinear_arith)
        requires n == a.x * a.x + a.y * a.y + a.z * a.z;
    let rsum = a.x * rx + a.y * ry + a.z * rz;
    assert(2 * s * rsum == 2 * s * (a.x * rx) + 2 * s * (a.y * ry) + 2 * s * (a.z * rz))
        by (nonlinear_arith)
        requires rsum == a.x * rx + a.y * ry + a.z * rz;
    let psum = rx * rx + ry * ry + rz * rz;
    assert((l * l) * mm == (s * s) * n - 2 * s * rsum + psum);
    lemma_mul_abs_bound(a.x, rx, l, l);
    lemma_mul_abs_bound(a.y, ry, l, l);
    lemma_mul_abs_bound(a.z, rz, l, l);
    assert(iabs(rsum) <= 3 * (l * l));
    assert(rx * rx >= 0 && ry * ry >= 0 && rz * rz >= 0) by (nonlinear_arith);
    lemma_mul_abs_bound(rx, rx, l, l);
    lemma_mul_abs_bound(ry, ry, l, l);
    lemma_mul_abs_bound(rz, rz, l, l);
    assert(0 <= psum <= 3 * (l * l));
    assert((s * s) * n >= (s * s) * (l * l) && (s * s) * n <= (s * s) * (l * l) + (2 * (s * s))
        * l) by (nonlinear_arith)
        requires
            l * l <= n,
            n <= l * l + 2 * l,
            s == 65536;
    assert(iabs(2 * s * rsum) <= (6 * s) * (l * l)) by (nonlinear_arith)
        requires
            iabs(rsum) <= 3 * (l * l),
            s == 65536;
    assert(l * l > 0) by (nonlinear_arith)
        requires l >= 65536;
    assert((l * l) * (s * s - 16 * s) <= (s * s) * (l * l) - (6 * s) * (l * l))
        by (nonlinear_arith)
        requires s == 65536;
    crate::fixed::lemma_mul_cancel_le(l * l, s * s - 16 * s, mm);
    assert((s * s) * (l * l) + (2 * (s * s)) * l + (6 * s) * (l * l) + 3 * (l * l) <= (l * l) * (s
        * s + 16 * s)) by (nonlinear_arith)
        requires
            l >= s,
            s == 65536;
    crate::fixed::lemma_mul_cancel_le(l * l, mm, s * s + 16 * s);
}

/// Squaring the division identity `q * l == u * s - v` relates the
/// squared quotient to the squared input and the remainder.
proof fn lemma_rescale_square(u: int, v: int, s: int, q: int, l: int)
    requires
        q * l == u * s - v,
    ensures
        (l * l) * (q * q) == (s * s) * (u * u) - 2 * s * (u * v) + v * v,
{
    let t = u * s - v;
    assert((l * l) * (q * q) == t * t) by (nonlinear_arith)
        requires t == q * l;
    assert(t * t == (s * s) * (u * u) - 2 * s * (u * v) + v * v) by (nonlinear_arith)
        requires t == u * s - v;
}

/// The mirror law for the exact reflection: against a unit normal, the
/// angle between the incoming direction and the normal equals the angle
/// between the outgoing direction and the normal. Stated over dot
/// products: the reflection negates the component along the normal and
/// preserves the squared magnitude, both scaled by `SCALE^2` because the
/// exact reflection carries that factor.
pub proof fn lemma_reflect_mirror(d: V3, n: V3)
    requires
        sdot(n, n) == 65536int * 65536,
    ensures
        sdot(sreflect(d, n), n) == -(65536int * 65536) * sdot(d, n),
        smag_sq(sreflect(d, n)) == ((65536int * 65536) * (65536int * 65536)) * smag_sq(d),
{
    let s2 = 65536int * 65536;
    let j = s2;
    let k = -2 * sdot(d, n);
    let r = sreflect(d, n);
    let m = smag_sq(d);
    let dn = sdot(d, n);
    lemma_neg_mul(2 * dn, n.x);
    lemma_neg_mul(2 * dn, n.y);
    lemma_neg_mul(2 * dn, n.z);
    assert(r === v3_add(v3_scale(j, d), v3_scale(k, n)));
    lemma_dot_bilinear(d, n, n, j, k);
    assert(sdot(r, n) == j * dn + k * sdot(n, n));
    assert(j * dn + k * s2 == -s2 * dn) by (nonlinear_arith)
        requires j == s2, k == -2 * dn, s2 == 65536int * 65536;
    lemma_dot_bilinear(d, n, r, j, k);
    assert(sdot(r, r) == j * sdot(d, r) + k * sdot(n, r));
    lemma_dot_bilinear(d, n, d, j, k);
    lemma_dot_comm(d, r);
    lemma_dot_comm(n, r);
    lemma_dot_comm(n, d);
    assert(sdot(d, r) == j * m + k * dn);
    assert(sdot(n, r) == j * dn + k * s2);
    assert(j * (j * m + k * dn) + k * (j * dn + k * s2) == (s2 * s2) * m) by (nonlinear_arith)
        requires j == s2, k == -2 * dn, s2 == 65536int * 65536;
}

} // verus!
