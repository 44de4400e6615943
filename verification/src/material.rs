//! Materials: scattering and emission. Lambertian diffusion, fuzzed
//! metal reflection, dielectric refraction with Schlick reflectance,
//! diffuse lights, and a combination of a scatterer with an emitter.
//!
//! Materials live in a palette (a vector) and are referenced by index,
//! so that many shapes can share one material. A combined material
//! refers to earlier palette entries only, which bounds its delegation.

use vstd::prelude::*;
use crate::fixed::{
    fx_div, fx_mul, iabs, is_sqrt_floor, lemma_fx_mul_abs_bound, lemma_mul_abs_bound,
    lemma_sat64_abs, lemma_sqrt_floor_exists, lemma_tdiv_abs_bound,
    div_fx, div_trunc, isqrt, mul_fx, mul_i64_wide, sat_add, sat_narrow, sat_sub, sat64,
    sqrt_floor, tdiv, SCALE,
};
use crate::model::{Hit, GEOM_BOUND};
use crate::ray::Ray;
use crate::rng::Sampler;
use crate::vec3::{
    sdot, smag_sq, v3_bounded, v3_fx_scale, v3_nonneg, v3_reflect_fx, v3_sat_add, v3_sat_neg,
    v3_sat_sub, v3_zero, V3, Vec3,
};

verus! {

/// The result of a ray interacting with a material: the bounced ray and
/// the attenuation it carries. Both zero means the ray was absorbed.
#[derive(PartialEq, Eq, Structural, Copy, Clone, Debug)]
pub struct Scatter {
    /// The bounced ray of light.
    pub scattered: Ray,
    /// The color-scaling factor the bounce applies.
    pub attenuation: Vec3,
}

impl Scatter {
    /// The absorbed outcome: zero ray, zero attenuation.
    pub fn zero() -> (r: Scatter)
        ensures
            r == spec_scatter_zero(),
    {
        Scatter { scattered: Ray::zero(), attenuation: Vec3::zero() }
    }
}

/// The absorbed outcome as a value.
pub open spec fn spec_scatter_zero() -> Scatter {
    Scatter {
        scattered: Ray {
            origin: Vec3 { x: 0, y: 0, z: 0 },
            direction: Vec3 { x: 0, y: 0, z: 0 },
        },
        attenuation: Vec3 { x: 0, y: 0, z: 0 },
    }
}

/// Lambertian (matte) material: scatters diffusely around the normal.
#[derive(Copy, Clone, Debug)]
pub struct Lambertian {
    pub albedo: Vec3,
}

/// Metal material: mirror reflection perturbed by a fuzz radius.
#[derive(Copy, Clone, Debug)]
pub struct Metal {
    pub albedo: Vec3,
    pub fuzz: i64,
}

/// Dielectric (glass-like) material: refracts or reflects.
#[derive(Copy, Clone, Debug)]
pub struct Dielectric {
    pub ref_idx: i64,
}

/// Light-emitting material: always absorbs, always emits.
#[derive(Copy, Clone, Debug)]
pub struct DiffuseLight {
    pub emittance: Vec3,
}

/// The closed set of material behaviors. `Combined` delegates scattering
/// and emission to two other palette entries.
#[non_exhaustive]
#[derive(Copy, Clone, Debug)]
pub enum Material {
    Lambertian(Lambertian),
    Metal(Metal),
    Dielectric(Dielectric),
    DiffuseLight(DiffuseLight),
    Combined { scatterer: usize, emitter: usize },
}

/// Each albedo channel is a fraction of one.
pub open spec fn albedo_wf(a: V3) -> bool {
    &&& 0 <= a.x <= SCALE
    &&& 0 <= a.y <= SCALE
    &&& 0 <= a.z <= SCALE
}

/// Well-formedness of the palette entry at `i`: albedos are fractions,
/// fuzz is a fraction, the refractive index is within `[1/16, 16]` — a
/// machine bound that keeps the refraction arithmetic inside its
/// ranges, far outside any physical index — emittance is nonnegative,
/// and a combined entry points strictly earlier into the palette.
pub open spec fn material_wf(ms: Seq<Material>, i: int) -> bool {
    match ms[i] {
        Material::Lambertian(l) => albedo_wf(l.albedo@),
        Material::Metal(m) => albedo_wf(m.albedo@) && 0 <= m.fuzz <= SCALE,
        Material::Dielectric(d) => 4096 <= d.ref_idx <= 1048576,
        Material::DiffuseLight(d) => v3_nonneg(d.emittance@),
        Material::Combined { scatterer, emitter } => scatterer < i && emitter < i,
    }
}

/// Every palette entry is well formed.
pub open spec fn palette_wf(ms: Seq<Material>) -> bool {
    forall|i: int| 0 <= i < ms.len() ==> material_wf(ms, i)
}

/// What the palette entry at `idx` emits: lights emit their emittance,
/// a combined entry emits what its emitter emits, everything else emits
/// black.
pub open spec fn spec_emit(ms: Seq<Material>, idx: int) -> V3
    decreases idx,
{
    if 0 <= idx < ms.len() {
        match ms[idx] {
            Material::DiffuseLight(d) => d.emittance@,
            Material::Combined { scatterer, emitter } => if emitter < idx {
                spec_emit(ms, emitter as int)
            } else {
                v3_zero()
            },
            _ => v3_zero(),
        }
    } else {
        v3_zero()
    }
}

/// A well-formed palette only emits nonnegative light.
pub proof fn lemma_spec_emit_nonneg(ms: Seq<Material>, idx: int)
    requires
        palette_wf(ms),
    ensures
        v3_nonneg(spec_emit(ms, idx)),
    decreases idx,
{
    if 0 <= idx < ms.len() {
        assert(material_wf(ms, idx));
        match ms[idx] {
            Material::Combined { scatterer, emitter } => {
                if emitter < idx {
                    lemma_spec_emit_nonneg(ms, emitter as int);
                }
            },
            _ => {},
        }
    }
}

/// A point inside the open unit ball, as the sampler draws them.
pub open spec fn in_unit_ball(p: V3) -> bool {
    smag_sq(p) < SCALE * SCALE && v3_bounded(p, SCALE as int)
}

/// The diffuse bounce direction: `(point + normal + p) - point` for a
/// drawn point `p`, with saturating vector arithmetic.
pub open spec fn spec_lambertian_dir(point: V3, normal: V3, p: V3) -> V3 {
    v3_sat_sub(v3_sat_add(v3_sat_add(point, normal), p), point)
}

/// A Lambertian scatter outcome: the attenuation is exactly the albedo,
/// the bounced ray starts at the hit point, and its direction comes from
/// some point of the unit ball.
pub open spec fn lambertian_scatter_ok(l: Lambertian, rec: Hit, sc: Scatter) -> bool {
    &&& sc.attenuation == l.albedo
    &&& sc.scattered.origin == rec.point
    &&& exists|p: V3|
        in_unit_ball(p) && sc.scattered.direction@ === #[trigger] spec_lambertian_dir(
            rec.point@,
            rec.normal@,
            p,
        )
}

/// The metal bounce direction: the mirror reflection perturbed by a
/// drawn unit-ball point scaled by the fuzz.
pub open spec fn spec_metal_dir(d: V3, n: V3, fuzz: int, p: V3) -> V3 {
    v3_sat_add(v3_reflect_fx(d, n), v3_fx_scale(p, fuzz))
}

/// The metal outcome for a drawn point `p`: if the perturbed reflection
/// still points away from the surface, it scatters with the albedo as
/// attenuation; otherwise the ray is absorbed.
pub open spec fn metal_scatter_result(m: Metal, r_in: Ray, rec: Hit, p: V3) -> Scatter {
    let dir = spec_metal_dir(r_in.direction@, rec.normal@, m.fuzz as int, p);
    if sdot(dir, rec.normal@) > 0 {
        Scatter {
            scattered: Ray {
                origin: rec.point,
                direction: crate::vec3::v3_to_vec3(dir),
            },
            attenuation: m.albedo,
        }
    } else {
        spec_scatter_zero()
    }
}

/// A metal scatter outcome comes from some point of the unit ball.
pub open spec fn metal_scatter_ok(m: Metal, r_in: Ray, rec: Hit, sc: Scatter) -> bool {
    exists|p: V3| in_unit_ball(p) && sc == #[trigger] metal_scatter_result(m, r_in, rec, p)
}

/// One component of the refracted direction:
/// `ni * (uv - n * dt) - n * sqrt(disc)`, in fixed point.
pub open spec fn spec_refract_comp(uvc: int, nc: int, dt: int, ni: int, sq: int) -> int {
    let s2 = SCALE as int * SCALE;
    let w = sat64(tdiv(uvc * s2 - nc * dt, s2));
    let r1 = sat64(tdiv(ni * w, SCALE as int));
    let r2 = sat64(tdiv(nc * sq, SCALE as int));
    sat64(r1 - r2)
}

/// Snell refraction of `v` about the outward normal `n` with refraction
/// ratio `ni`: the direction is normalized, and refraction succeeds when
/// the discriminant `1 - ni^2 * (1 - dt^2)` is positive; a nonpositive
/// discriminant is total internal reflection. A normalized direction
/// far outside the unit range is degenerate and also fails.
pub open spec fn spec_refract(v: V3, n: V3, ni: int) -> Option<Vec3> {
    let s2 = SCALE as int * SCALE;
    let uv = crate::vec3::v3_normalize_fx(v);
    if !v3_bounded(uv, 4 * SCALE) {
        None
    } else {
        let dt = sat64(sdot(uv, n));
        let u2 = sat64(tdiv(s2 * s2 - dt * dt, s2));
        let q2 = sat64(ni * ni);
        let v2 = sat64(tdiv(q2 * u2, s2));
        let disc2 = sat64(s2 - v2);
        if disc2 > 0 {
            let sq = sqrt_floor(disc2);
            Some(Vec3 {
                x: spec_refract_comp(uv.x, n.x, dt, ni, sq) as i64,
                y: spec_refract_comp(uv.y, n.y, dt, ni, sq) as i64,
                z: spec_refract_comp(uv.z, n.z, dt, ni, sq) as i64,
            })
        } else {
            None
        }
    }
}

/// The fifth power of a fixed-point value.
pub open spec fn spec_pow5(p: int) -> int {
    fx_mul(fx_mul(fx_mul(fx_mul(p, p), p), p), p)
}

/// Schlick's base reflectance `((1 - n) / (1 + n))^2`.
pub open spec fn spec_r0(ri: int) -> int {
    let r0a = fx_div(SCALE as int - ri, SCALE as int + ri);
    fx_mul(r0a, r0a)
}

/// Schlick's approximation of the Fresnel reflectance:
/// `r0 + (1 - r0) * (1 - cosine)^5`.
pub open spec fn spec_schlick(cosine: int, ri: int) -> int {
    let r0 = spec_r0(ri);
    sat64(r0 + fx_mul(sat64(SCALE as int - r0), spec_pow5(sat64(SCALE as int - cosine))))
}

/// At normal incidence the Schlick reflectance is exactly the base
/// reflectance `((1 - n) / (1 + n))^2`: the angular term vanishes.
pub proof fn lemma_schlick_normal_incidence(ri: int)
    ensures
        spec_schlick(SCALE as int, ri) == spec_r0(ri),
{
    vstd::arithmetic::div_mod::lemma_div_of0(SCALE as int);
    assert(spec_pow5(sat64(SCALE as int - SCALE as int)) == 0);
    assert(fx_mul(sat64(SCALE as int - spec_r0(ri)), 0) == 0);
}

/// The outward normal the dielectric uses: flipped when the incoming
/// direction leaves through the surface.
pub open spec fn spec_outward(normal: V3, dn: int) -> V3 {
    if dn > 0 {
        v3_sat_neg(normal)
    } else {
        normal
    }
}

/// The refraction ratio the dielectric uses: the index itself when
/// exiting, its reciprocal when entering.
pub open spec fn spec_ni(ri: int, dn: int) -> int {
    if dn > 0 {
        ri
    } else {
        fx_div(SCALE as int, ri)
    }
}

/// A dielectric bounce direction is either the mirror reflection about
/// the surface normal, or the Snell refraction where it is possible.
pub open spec fn dielectric_dir_ok(d: Dielectric, r_in: Ray, rec: Hit, dir: Vec3) -> bool {
    let dn = sat64(sdot(r_in.direction@, rec.normal@));
    let outward = spec_outward(rec.normal@, dn);
    let ni = spec_ni(d.ref_idx as int, dn);
    ||| dir@ === v3_reflect_fx(r_in.direction@, rec.normal@)
    ||| spec_refract(r_in.direction@, outward, ni) == Some(dir)
}

/// A dielectric scatter outcome: never absorbed, white attenuation, ray
/// from the hit point, direction reflected or refracted.
pub open spec fn dielectric_scatter_ok(d: Dielectric, r_in: Ray, rec: Hit, sc: Scatter) -> bool {
    &&& sc.attenuation@ === (V3 { x: SCALE as int, y: SCALE as int, z: SCALE as int })
    &&& sc.scattered.origin == rec.point
    &&& dielectric_dir_ok(d, r_in, rec, sc.scattered.direction)
}

/// The metal that scattering at entry `idx` resolves to, following
/// combined entries to their scatterer; `None` where scattering is not
/// a metal's.
pub open spec fn spec_scatter_metal(ms: Seq<Material>, idx: int) -> Option<Metal>
    decreases idx,
{
    if 0 <= idx < ms.len() {
        match ms[idx] {
            Material::Metal(m) => Some(m),
            Material::Combined { scatterer, emitter } => if scatterer < idx {
                spec_scatter_metal(ms, scatterer as int)
            } else {
                None
            },
            _ => None,
        }
    } else {
        None
    }
}

/// Where scattering resolves to a metal, the scatter outcome is that
/// metal's.
pub proof fn lemma_scatter_ok_metal(ms: Seq<Material>, idx: int, r_in: Ray, rec: Hit, sc: Scatter)
    requires
        spec_scatter_ok(ms, idx, r_in, rec, sc),
    ensures
        spec_scatter_metal(ms, idx) matches Some(m) ==> metal_scatter_ok(m, r_in, rec, sc),
    decreases idx,
{
    if 0 <= idx < ms.len() {
        match ms[idx] {
            Material::Combined { scatterer, emitter } => {
                if scatterer < idx {
                    lemma_scatter_ok_metal(ms, scatterer as int, r_in, rec, sc);
                }
            },
            _ => {},
        }
    }
}

/// What scattering at palette entry `idx` may return: each material's
/// possible outcomes over the points the sampler may have drawn. An
/// index out of range, a light, and a combined entry whose reference is
/// not strictly earlier all absorb.
pub open spec fn spec_scatter_ok(
    ms: Seq<Material>,
    idx: int,
    r_in: Ray,
    rec: Hit,
    sc: Scatter,
) -> bool
    decreases idx,
{
    if 0 <= idx < ms.len() {
        match ms[idx] {
            Material::Lambertian(l) => lambertian_scatter_ok(l, rec, sc),
            Material::Metal(m) => metal_scatter_ok(m, r_in, rec, sc),
            Material::Dielectric(d) => dielectric_scatter_ok(d, r_in, rec, sc),
            Material::DiffuseLight(_) => sc == spec_scatter_zero(),
            Material::Combined { scatterer, emitter } => if scatterer < idx {
                spec_scatter_ok(ms, scatterer as int, r_in, rec, sc)
            } else {
                sc == spec_scatter_zero()
            },
        }
    } else {
        sc == spec_scatter_zero()
    }
}

impl Lambertian {
    /// Construct a Lambertian material from its albedo.
    pub fn new(albedo: Vec3) -> (r: Lambertian)
        ensures
            r.albedo == albedo,
    {
        Lambertian { albedo }
    }

    /// Scatter diffusely: bounce from the hit point toward the normal
    /// perturbed by a point drawn in the unit ball. Never absorbs; the
    /// attenuation is exactly the albedo.
    pub fn scatter(&self, _r_in: &Ray, rec: &Hit, sampler: &mut Sampler) -> (sc: Scatter)
        ensures
            lambertian_scatter_ok(*self, *rec, sc),
            sc.attenuation == self.albedo,
            sc.scattered.origin == rec.point,
    {
        let p = sampler.random_in_unit_sphere();
        let target = rec.point.add(rec.normal).add(p);
        let scattered = Ray::new(rec.point, target.sub(rec.point));
        proof {
            assert(in_unit_ball(p@) && scattered.direction@ === spec_lambertian_dir(
                rec.point@,
                rec.normal@,
                p@,
            ));
        }
        Scatter { scattered, attenuation: self.albedo }
    }
}

impl Metal {
    /// Construct a metal material; a fuzz above one is clamped to one.
    pub fn new(albedo: Vec3, fuzz: i64) -> (r: Metal)
        ensures
            r.albedo == albedo,
            r.fuzz == if fuzz < SCALE { fuzz } else { SCALE },
    {
        Metal { albedo, fuzz: if fuzz < SCALE { fuzz } else { SCALE } }
    }

    /// Scatter by mirror reflection perturbed by the fuzz. If the
    /// perturbed direction points into the surface, the ray is absorbed.
    pub fn scatter(&self, r_in: &Ray, rec: &Hit, sampler: &mut Sampler) -> (sc: Scatter)
        requires
            0 <= self.fuzz <= SCALE,
            v3_bounded(r_in.direction@, GEOM_BOUND as int),
            v3_bounded(rec.normal@, GEOM_BOUND as int),
        ensures
            metal_scatter_ok(*self, *r_in, *rec, sc),
    {
        let target = r_in.direction.reflect(rec.normal);
        let p = sampler.random_in_unit_sphere();
        let scattered_dir = target.add(p.scale(self.fuzz));
        proof {
            crate::vec3::lemma_reflect_fx_bounded(r_in.direction@, rec.normal@);
            lemma_fx_mul_abs_bound(p@.x, self.fuzz as int, 65536, 65536);
            lemma_fx_mul_abs_bound(p@.y, self.fuzz as int, 65536, 65536);
            lemma_fx_mul_abs_bound(p@.z, self.fuzz as int, 65536, 65536);
            lemma_sat64_abs(target@.x + v3_fx_scale(p@, self.fuzz as int).x);
            lemma_sat64_abs(target@.y + v3_fx_scale(p@, self.fuzz as int).y);
            lemma_sat64_abs(target@.z + v3_fx_scale(p@, self.fuzz as int).z);
        }
        let d = scattered_dir.dot(rec.normal);
        let sc = if d > 0 {
            Scatter {
                scattered: Ray::new(rec.point, scattered_dir),
                attenuation: self.albedo,
            }
        } else {
            Scatter::zero()
        };
        proof {
            assert(in_unit_ball(p@) && sc == metal_scatter_result(*self, *r_in, *rec, p@));
        }
        sc
    }
}

impl Dielectric {
    /// Construct a dielectric material from its refractive index.
    pub fn new(ref_idx: i64) -> (r: Dielectric)
        ensures
            r.ref_idx == ref_idx,
    {
        Dielectric { ref_idx }
    }

    /// Schlick's approximation of the Fresnel reflectance.
    pub fn schlick(cosine: i64, ref_idx: i64) -> (r: i64)
        requires
            1 <= ref_idx <= 1048576,
        ensures
            r as int == spec_schlick(cosine as int, ref_idx as int),
    {
        let r0a = div_fx(sat_sub(SCALE, ref_idx), SCALE + ref_idx);
        let r0 = mul_fx(r0a, r0a);
        let p = sat_sub(SCALE, cosine);
        let p2 = mul_fx(p, p);
        let p3 = mul_fx(p2, p);
        let p4 = mul_fx(p3, p);
        let p5 = mul_fx(p4, p);
        sat_add(r0, mul_fx(sat_sub(SCALE, r0), p5))
    }

    /// Snell refraction of `v` about the outward normal, or `None` on
    /// total internal reflection or a degenerate normalized direction.
    pub fn refract(v: Vec3, normal: Vec3, ni_over_nt: i64) -> (r: Option<Vec3>)
        requires
            v3_bounded(v@, GEOM_BOUND as int),
            smag_sq(v@) > 0,
            v3_bounded(normal@, GEOM_BOUND as int),
            0 < ni_over_nt <= 1048576,
        ensures
            r == spec_refract(v@, normal@, ni_over_nt as int),
    {
        let uv = v.normalize();
        let bound: i64 = 4 * SCALE;
        if uv.x > bound || uv.x < -bound || uv.y > bound || uv.y < -bound || uv.z > bound
            || uv.z < -bound {
            return None;
        }
        let s2c: i64 = 0x1_0000_0000;
        let s4: i128 = 0x1_0000_0000_0000_0000;
        proof {
            assert(s2c == SCALE as int * SCALE && s4 == (SCALE as int * SCALE) * (
            SCALE as int * SCALE)) by (nonlinear_arith)
                requires
                    s2c == 0x1_0000_0000,
                    s4 == 0x1_0000_0000_0000_0000,
                    SCALE == 65536;
        }
        let dt = sat_narrow(uv.dot(normal));
        let dt2 = mul_i64_wide(dt, dt);
        let u2 = sat_narrow(div_trunc(s4 - dt2, s2c as i128));
        let q2 = sat_narrow(mul_i64_wide(ni_over_nt, ni_over_nt));
        let v2 = sat_narrow(div_trunc(mul_i64_wide(q2, u2), s2c as i128));
        let disc2 = sat_sub(s2c, v2);
        if disc2 > 0 {
            let sqw = isqrt(disc2 as u128);
            proof {
                assert(sqw * sqw <= disc2);
                assert(sqw < 0x1_0000_0000) by (nonlinear_arith)
                    requires
                        sqw * sqw <= disc2,
                        disc2 < 0x8000_0000_0000_0000,
                        sqw >= 0;
            }
            let sq = sqw as i64;
            let rx = Self::refract_comp(uv.x, normal.x, dt, ni_over_nt, sq, s2c);
            let ry = Self::refract_comp(uv.y, normal.y, dt, ni_over_nt, sq, s2c);
            let rz = Self::refract_comp(uv.z, normal.z, dt, ni_over_nt, sq, s2c);
            Some(Vec3::new(rx, ry, rz))
        } else {
            None
        }
    }

    /// One component of the refracted direction.
    fn refract_comp(uvc: i64, nc: i64, dt: i64, ni: i64, sq: i64, s2c: i64) -> (r: i64)
        requires
            iabs(uvc as int) <= 4 * SCALE,
            s2c == SCALE * SCALE,
        ensures
            r as int == spec_refract_comp(uvc as int, nc as int, dt as int, ni as int, sq as int),
    {
        proof {
            lemma_mul_abs_bound(uvc as int, s2c as int, 4int * 65536, 65536int * 65536);
        }
        let w = sat_narrow(div_trunc(
            mul_i64_wide(uvc, s2c) - mul_i64_wide(nc, dt),
            s2c as i128,
        ));
        let r1 = sat_narrow(div_trunc(mul_i64_wide(ni, w), SCALE as i128));
        let r2 = sat_narrow(div_trunc(mul_i64_wide(nc, sq), SCALE as i128));
        sat_sub(r1, r2)
    }

    /// Scatter by refraction or reflection: the reflectance from
    /// Schlick's approximation decides the probability of reflecting;
    /// total internal reflection always reflects. Never absorbs, and the
    /// attenuation is always white.
    pub fn scatter(&self, r_in: &Ray, rec: &Hit, sampler: &mut Sampler) -> (sc: Scatter)
        requires
            4096 <= self.ref_idx <= 1048576,
            v3_bounded(r_in.direction@, GEOM_BOUND as int),
            smag_sq(r_in.direction@) > 0,
            v3_bounded(rec.normal@, GEOM_BOUND as int),
        ensures
            dielectric_scatter_ok(*self, *r_in, *rec, sc),
    {
        let s2c: i64 = 0x1_0000_0000;
        proof {
            assert(s2c == SCALE as int * SCALE) by (nonlinear_arith)
                requires
                    s2c == 0x1_0000_0000,
                    SCALE == 65536;
        }
        let dn = sat_narrow(r_in.direction.dot(rec.normal));
        let mag = r_in.mag();
        proof {
            let n = smag_sq(r_in.direction@);
            lemma_sqrt_floor_exists(n);
            assert(mag >= 1) by (nonlinear_arith)
                requires
                    is_sqrt_floor(n, mag as int),
                    n >= 1;
        }
        let outward: Vec3;
        let ni_over_nt: i64;
        let cosine: i64;
        if dn > 0 {
            outward = rec.normal.neg();
            ni_over_nt = self.ref_idx;
            let c0 = sat_narrow(div_trunc(dn as i128, mag as i128));
            let q = mul_fx(self.ref_idx, self.ref_idx);
            let c2 = sat_narrow(mul_i64_wide(c0, c0));
            let t = sat_narrow(div_trunc(mul_i64_wide(q, sat_sub(s2c, c2)), SCALE as i128));
            let inner = sat_sub(s2c, t);
            cosine = if inner > 0 {
                let cw = isqrt(inner as u128);
                proof {
                    assert(cw * cw <= inner);
                    assert(cw < 0x1_0000_0000) by (nonlinear_arith)
                        requires
                            cw * cw <= inner,
                            inner < 0x8000_0000_0000_0000,
                            cw >= 0;
                }
                cw as i64
            } else {
                0
            };
        } else {
            outward = rec.normal;
            ni_over_nt = div_fx(SCALE, self.ref_idx);
            proof {
                vstd::arithmetic::div_mod::lemma_div_is_ordered_by_denominator(
                    65536int * 65536,
                    4096,
                    self.ref_idx as int,
                );
                vstd::arithmetic::div_mod::lemma_div_is_ordered_by_denominator(
                    65536int * 65536,
                    self.ref_idx as int,
                    1048576,
                );
            }
            cosine = sat_narrow(div_trunc(-(dn as i128), mag as i128));
        }
        let refract_result = Self::refract(r_in.direction, outward, ni_over_nt);
        let reflect_prob: i64 = if refract_result.is_some() {
            Self::schlick(cosine, self.ref_idx)
        } else {
            SCALE
        };
        let u = sampler.next_unit();
        let direction = if u < reflect_prob {
            r_in.direction.reflect(rec.normal)
        } else {
            match refract_result {
                Some(w) => w,
                None => Vec3::zero(),
            }
        };
        Scatter { scattered: Ray::new(rec.point, direction), attenuation: Vec3::one() }
    }
}

impl DiffuseLight {
    /// Construct a diffuse light from its emittance color.
    pub fn new(emittance: Vec3) -> (r: DiffuseLight)
        ensures
            r.emittance == emittance,
    {
        DiffuseLight { emittance }
    }

    /// What the light emits, regardless of the incoming ray.
    pub fn emit(&self, _rec: &Hit) -> (r: Vec3)
        ensures
            r == self.emittance,
    {
        self.emittance
    }
}

impl Material {
    /// Convenience method to construct a Lambertian material.
    pub fn lambertian(albedo: Vec3) -> (r: Material)
        ensures
            r == Material::Lambertian(Lambertian { albedo }),
    {
        Material::Lambertian(Lambertian::new(albedo))
    }

    /// Convenience method to construct a metal material.
    pub fn metal(albedo: Vec3, fuzz: i64) -> (r: Material)
        ensures
            r == Material::Metal(
                Metal { albedo, fuzz: if fuzz < SCALE { fuzz } else { SCALE } },
            ),
    {
        Material::Metal(Metal::new(albedo, fuzz))
    }

    /// Convenience method to construct a dielectric material.
    pub fn dielectric(ref_idx: i64) -> (r: Material)
        ensures
            r == Material::Dielectric(Dielectric { ref_idx }),
    {
        Material::Dielectric(Dielectric::new(ref_idx))
    }

    /// Convenience method to construct a diffuse light material.
    pub fn diffuse_light(emittance: Vec3) -> (r: Material)
        ensures
            r == Material::DiffuseLight(DiffuseLight { emittance }),
    {
        Material::DiffuseLight(DiffuseLight::new(emittance))
    }

    /// Scatter an incoming ray at the palette entry `idx`. The result is
    /// one of the entry's possible outcomes, and the attenuation always
    /// stays within one unit per channel.
    pub fn scatter(
        ms: &Vec<Material>,
        idx: usize,
        r_in: &Ray,
        rec: &Hit,
        sampler: &mut Sampler,
    ) -> (sc: Scatter)
        requires
            palette_wf(ms@),
            idx < ms@.len(),
            v3_bounded(r_in.direction@, GEOM_BOUND as int),
            smag_sq(r_in.direction@) > 0,
            v3_bounded(rec.normal@, GEOM_BOUND as int),
        ensures
            spec_scatter_ok(ms@, idx as int, *r_in, *rec, sc),
            albedo_wf(sc.attenuation@),
        decreases idx,
    {
        proof {
            assert(material_wf(ms@, idx as int));
        }
        match &ms[idx] {
            Material::Lambertian(l) => l.scatter(r_in, rec, sampler),
            Material::Metal(m) => {
                let sc = m.scatter(r_in, rec, sampler);
                proof {
                    let p = choose|p: V3|
                        in_unit_ball(p) && sc == #[trigger] metal_scatter_result(*m, *r_in, *rec, p);
                    assert(sc == metal_scatter_result(*m, *r_in, *rec, p));
                }
                sc
            },
            Material::Dielectric(d) => d.scatter(r_in, rec, sampler),
            Material::DiffuseLight(_) => Scatter::zero(),
            Material::Combined { scatterer, emitter: _ } => {
                let s = *scatterer;
                if s < idx {
                    Material::scatter(ms, s, r_in, rec, sampler)
                } else {
                    Scatter::zero()
                }
            },
        }
    }

    /// What the palette entry `idx` emits.
    pub fn emit(ms: &Vec<Material>, idx: usize, _rec: &Hit) -> (r: Vec3)
        requires
            idx < ms@.len(),
        ensures
            r@ === spec_emit(ms@, idx as int),
        decreases idx,
    {
        match &ms[idx] {
            Material::DiffuseLight(d) => d.emittance,
            Material::Combined { scatterer: _, emitter } => {
                let e = *emitter;
                if e < idx {
                    Material::emit(ms, e, _rec)
                } else {
                    Vec3::zero()
                }
            },
            _ => Vec3::zero(),
        }
    }
}

} // verus!
