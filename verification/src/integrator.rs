//! The light-transport integrator: follow a ray through the scene until
//! it escapes, is absorbed, or the bounce budget runs out.
//!
//! The loop is a bounded state machine. Per step it performs exactly one
//! intersection test, so a whole trace performs at most `max_bounce + 1`
//! of them. A hit whose record or bounced ray is degenerate (out of the
//! geometric bounds, or with a zero direction) is treated as absorbed.

use vstd::prelude::*;
use crate::fixed::{lemma_fx_mul_le, lemma_fx_mul_nonneg, lemma_fx_mul_unit, lemma_fx_mul_zero, SCALE};
use crate::material::{
    in_unit_ball, metal_scatter_result, palette_wf, spec_emit, spec_metal_dir, spec_scatter_metal,
    lemma_scatter_ok_metal, Material, Metal, Scatter,
};
use crate::model::{model_bounded, spec_model_hit, Hit, Model, GEOM_BOUND};
use crate::ray::Ray;
use crate::rng::Sampler;
use crate::vec3::{
    sdot, smag_sq, v3_bounded, v3_fx_mul, v3_nonneg, v3_reflect_fx, v3_sat_add, v3_to_vec3,
    v3_zero, V3, Vec3,
};

verus! {

/// The lower end of every intersection range: one fixed-point step,
/// which keeps a bounced ray from hitting its own origin.
pub const T_EPSILON: i64 = 1;

/// The upper end of every intersection range.
pub const T_LIMIT: i64 = 0x7fff_ffff_ffff_ffff;

/// The background color the integrator uses where a ray escapes the
/// scene: black, so all light comes from emitting materials.
pub const SKY: i64 = 0;

/// The first thing a traced ray meets.
pub open spec fn spec_first_hit(m: Model, origin: V3, direction: V3) -> Option<Hit> {
    spec_model_hit(m, origin, direction, T_EPSILON as int, T_LIMIT as int)
}

/// The emittance of the first hit, where that hit is a diffuse light.
pub open spec fn spec_first_hit_light(
    m: Model,
    ms: Seq<Material>,
    origin: V3,
    direction: V3,
) -> Option<V3> {
    match spec_first_hit(m, origin, direction) {
        Some(h) => if 0 <= h.material < ms.len() && ms[h.material as int] is DiffuseLight {
            Some(spec_emit(ms, h.material as int))
        } else {
            None
        },
        None => None,
    }
}

/// A color channel within one unit.
pub open spec fn unit_range(x: int) -> bool {
    0 <= x <= SCALE
}

/// The deterministic one-bounce path: the traced ray's first hit
/// scatters as a fuzz-free metal with a visible albedo — directly or
/// through a combined entry — the exact mirror reflection leaves the
/// surface, the bounced ray is well formed, and it escapes the scene.
/// Under this premise a trace makes exactly one bounce whatever the
/// random draws, so its exit value is determined: the throughput (the
/// metal's albedo) times the sum of the background and the emission
/// accumulated at the bounce. With a combined entry whose emitter is a
/// light, the accumulated term is visible in the result.
pub open spec fn spec_metal_bounce_escapes(
    world: Model,
    ms: Seq<Material>,
    origin: V3,
    direction: V3,
    max_bounce: u32,
    h: Hit,
    m: Metal,
) -> bool {
    let refl = v3_reflect_fx(direction, h.normal@);
    &&& max_bounce >= 1
    &&& spec_first_hit(world, origin, direction) == Some(h)
    &&& 0 <= h.material < ms.len()
    &&& spec_scatter_metal(ms, h.material as int) == Some(m)
    &&& m.fuzz == 0
    &&& !(m.albedo.x == 0 && m.albedo.y == 0 && m.albedo.z == 0)
    &&& v3_bounded(h.point@, GEOM_BOUND as int)
    &&& v3_bounded(h.normal@, GEOM_BOUND as int)
    &&& sdot(refl, h.normal@) > 0
    &&& v3_bounded(refl, GEOM_BOUND as int)
    &&& spec_first_hit(world, h.point@, refl) is None
}

/// Trace a ray through the scene and also report how many intersection
/// tests were performed: at least one, and never more than
/// `max_bounce + 1`. A bounce budget of zero turns the first hit into
/// the depth-cap exit, which is black: nothing has been accumulated yet.
pub fn trace(
    ray0: Ray,
    world: &Model,
    palette: &Vec<Material>,
    max_bounce: u32,
    sampler: &mut Sampler,
) -> (out: (Vec3, u32))
    requires
        model_bounded(*world),
        palette_wf(palette@),
        v3_bounded(ray0.origin@, GEOM_BOUND as int),
        v3_bounded(ray0.direction@, GEOM_BOUND as int),
        smag_sq(ray0.direction@) > 0,
        max_bounce < 0xffff_ffffu32,
    ensures
        1 <= out.1 <= max_bounce + 1,
        v3_nonneg(out.0@),
        spec_first_hit(*world, ray0.origin@, ray0.direction@) is None ==> out.0@ === v3_zero(),
        max_bounce == 0 && spec_first_hit(*world, ray0.origin@, ray0.direction@) is Some
            ==> out.0@ === v3_zero(),
        max_bounce >= 1 ==> (spec_first_hit_light(
            *world,
            palette@,
            ray0.origin@,
            ray0.direction@,
        ) matches Some(c) ==> out.0@ === c),
        forall|h: Hit, m: Metal| #[trigger] spec_metal_bounce_escapes(
            *world,
            palette@,
            ray0.origin@,
            ray0.direction@,
            max_bounce,
            h,
            m,
        ) ==> out.0@ === v3_fx_mul(
            m.albedo@,
            v3_sat_add(v3_zero(), spec_emit(palette@, h.material as int)),
        ),
{
    let mut ray = ray0;
    let mut factor = Vec3::one();
    let mut emit = Vec3::zero();
    let mut bounces: u32 = 0;
    let mut tests: u32 = 0;
    let mut result = Vec3::zero();
    loop
        invariant_except_break
            tests == bounces,
            bounces <= max_bounce,
            max_bounce < 0xffff_ffffu32,
            palette_wf(palette@),
            model_bounded(*world),
            v3_bounded(ray.origin@, GEOM_BOUND as int),
            v3_bounded(ray.direction@, GEOM_BOUND as int),
            smag_sq(ray.direction@) > 0,
            unit_range(factor@.x) && unit_range(factor@.y) && unit_range(factor@.z),
            v3_nonneg(emit@),
            bounces == 0 ==> ray == ray0 && factor@ === (V3 {
                x: SCALE as int,
                y: SCALE as int,
                z: SCALE as int,
            }) && emit@ === v3_zero(),
            bounces >= 1 ==> spec_first_hit(*world, ray0.origin@, ray0.direction@) is Some
                && spec_first_hit_light(*world, palette@, ray0.origin@, ray0.direction@) is None,
            forall|h: Hit, m: Metal| #[trigger] spec_metal_bounce_escapes(
                *world,
                palette@,
                ray0.origin@,
                ray0.direction@,
                max_bounce,
                h,
                m,
            ) ==> bounces <= 1 && (bounces == 1 ==> ray == (Ray {
                origin: h.point,
                direction: v3_to_vec3(v3_reflect_fx(ray0.direction@, h.normal@)),
            }) && factor == m.albedo && emit@ === spec_emit(palette@, h.material as int)),
        ensures
            1 <= tests <= max_bounce + 1,
            v3_nonneg(result@),
            spec_first_hit(*world, ray0.origin@, ray0.direction@) is None ==> result@
                === v3_zero(),
            max_bounce == 0 && spec_first_hit(*world, ray0.origin@, ray0.direction@) is Some
                ==> result@ === v3_zero(),
            max_bounce >= 1 ==> (spec_first_hit_light(
                *world,
                palette@,
                ray0.origin@,
                ray0.direction@,
            ) matches Some(c) ==> result@ === c),
            forall|h: Hit, m: Metal| #[trigger] spec_metal_bounce_escapes(
                *world,
                palette@,
                ray0.origin@,
                ray0.direction@,
                max_bounce,
                h,
                m,
            ) ==> result@ === v3_fx_mul(
                m.albedo@,
                v3_sat_add(v3_zero(), spec_emit(palette@, h.material as int)),
            ),
        decreases max_bounce - bounces,
    {
        let hit_opt = world.hit(&ray, T_EPSILON, T_LIMIT);
        tests += 1;
        match hit_opt {
            None => {
                result = factor.mul(Vec3::all(SKY).add(emit));
                proof {
                    lemma_trace_result(factor@, emit@);
                }
                break;
            },
            Some(rec) => {
                proof {
                    assert forall|h: Hit, m: Metal| #[trigger] spec_metal_bounce_escapes(
                        *world,
                        palette@,
                        ray0.origin@,
                        ray0.direction@,
                        max_bounce,
                        h,
                        m,
                    ) implies bounces == 0 && rec == h by {
                        if bounces == 1 {
                            assert(ray.direction@ === v3_reflect_fx(
                                ray0.direction@,
                                h.normal@,
                            ));
                            assert(ray.origin@ === h.point@);
                            assert(false);
                        }
                    }
                }
                if bounces >= max_bounce {
                    result = factor.mul(Vec3::all(SKY).add(emit));
                    proof {
                        lemma_trace_result(factor@, emit@);
                    }
                    break;
                }
                if rec.material >= palette.len() {
                    result = factor.mul(Vec3::zero());
                    proof {
                        lemma_trace_result(factor@, v3_zero());
                    }
                    break;
                }
                let e = Material::emit(palette, rec.material, &rec);
                proof {
                    crate::material::lemma_spec_emit_nonneg(palette@, rec.material as int);
                }
                if !rec.normal.within(GEOM_BOUND) {
                    result = factor.mul(e);
                    proof {
                        lemma_trace_result(factor@, e@);
                    }
                    break;
                }
                let sc = Material::scatter(palette, rec.material, &ray, &rec, sampler);
                proof {
                    assert forall|h: Hit, m: Metal| #[trigger] spec_metal_bounce_escapes(
                        *world,
                        palette@,
                        ray0.origin@,
                        ray0.direction@,
                        max_bounce,
                        h,
                        m,
                    ) implies sc == (crate::material::Scatter {
                        scattered: Ray {
                            origin: h.point,
                            direction: v3_to_vec3(v3_reflect_fx(ray0.direction@, h.normal@)),
                        },
                        attenuation: m.albedo,
                    }) && sdot(v3_reflect_fx(ray0.direction@, h.normal@), h.normal@) > 0 by {
                        lemma_scatter_ok_metal(palette@, rec.material as int, ray, rec, sc);
                        let refl = v3_reflect_fx(ray0.direction@, h.normal@);
                        let p = choose|p: V3|
                            in_unit_ball(p) && sc == #[trigger] metal_scatter_result(
                                m,
                                ray,
                                rec,
                                p,
                            );
                        lemma_fx_mul_zero(p.x);
                        lemma_fx_mul_zero(p.y);
                        lemma_fx_mul_zero(p.z);
                        assert(spec_metal_dir(ray.direction@, rec.normal@, 0, p) === refl);
                        assert(sc == metal_scatter_result(m, ray, rec, p));
                    }
                }
                if sc.scattered == Ray::zero() || sc.attenuation == Vec3::zero() {
                    result = factor.mul(e);
                    proof {
                        lemma_trace_result(factor@, e@);
                        lemma_metal_bounce_not_degenerate(
                            *world,
                            palette@,
                            ray0.origin@,
                            ray0.direction@,
                            max_bounce,
                            sc,
                        );
                    }
                    break;
                }
                if !sc.scattered.origin.within(GEOM_BOUND)
                    || !sc.scattered.direction.within(GEOM_BOUND)
                    || (sc.scattered.direction.x == 0 && sc.scattered.direction.y == 0
                        && sc.scattered.direction.z == 0) {
                    result = factor.mul(e);
                    proof {
                        lemma_trace_result(factor@, e@);
                        lemma_metal_bounce_not_degenerate(
                            *world,
                            palette@,
                            ray0.origin@,
                            ray0.direction@,
                            max_bounce,
                            sc,
                        );
                    }
                    break;
                }
                proof {
                    lemma_fx_mul_le(sc.attenuation@.x, factor@.x);
                    lemma_fx_mul_le(sc.attenuation@.y, factor@.y);
                    lemma_fx_mul_le(sc.attenuation@.z, factor@.z);
                    lemma_fx_mul_comm(factor@.x, sc.attenuation@.x);
                    lemma_fx_mul_comm(factor@.y, sc.attenuation@.y);
                    lemma_fx_mul_comm(factor@.z, sc.attenuation@.z);
                    assert(smag_sq(sc.scattered.direction@) > 0) by (nonlinear_arith)
                        requires
                            !(sc.scattered.direction@.x == 0 && sc.scattered.direction@.y == 0
                                && sc.scattered.direction@.z == 0),
                            smag_sq(sc.scattered.direction@) == sc.scattered.direction@.x
                                * sc.scattered.direction@.x + sc.scattered.direction@.y
                                * sc.scattered.direction@.y + sc.scattered.direction@.z
                                * sc.scattered.direction@.z;
                }
                let new_factor = factor.mul(sc.attenuation);
                let new_emit = emit.add(e);
                proof {
                    lemma_fx_mul_unit(sc.attenuation@.x);
                    lemma_fx_mul_unit(sc.attenuation@.y);
                    lemma_fx_mul_unit(sc.attenuation@.z);
                    assert forall|h: Hit, m: Metal| #[trigger] spec_metal_bounce_escapes(
                        *world,
                        palette@,
                        ray0.origin@,
                        ray0.direction@,
                        max_bounce,
                        h,
                        m,
                    ) implies new_factor == m.albedo && new_emit@ === spec_emit(
                        palette@,
                        h.material as int,
                    ) by {
                        assert(factor@ === (V3 {
                            x: SCALE as int,
                            y: SCALE as int,
                            z: SCALE as int,
                        }));
                        assert(new_factor.x == sc.attenuation.x && new_factor.y
                            == sc.attenuation.y && new_factor.z == sc.attenuation.z);
                    }
                }
                ray = sc.scattered;
                factor = new_factor;
                emit = new_emit;
                bounces = bounces + 1;
            },
        }
    }
    (result, tests)
}

/// Under the deterministic one-bounce premise the scatter outcome is
/// neither absorbed nor degenerate, so the branches that treat it so
/// are unreachable: the premise then holds of no pair at all.
proof fn lemma_metal_bounce_not_degenerate(
    world: Model,
    ms: Seq<Material>,
    origin: V3,
    direction: V3,
    max_bounce: u32,
    sc: crate::material::Scatter,
)
    requires
        forall|h: Hit, m: Metal| #[trigger] spec_metal_bounce_escapes(
            world,
            ms,
            origin,
            direction,
            max_bounce,
            h,
            m,
        ) ==> sc == (crate::material::Scatter {
            scattered: Ray {
                origin: h.point,
                direction: v3_to_vec3(v3_reflect_fx(direction, h.normal@)),
            },
            attenuation: m.albedo,
        }),
        sc.scattered == (Ray {
            origin: Vec3 { x: 0, y: 0, z: 0 },
            direction: Vec3 { x: 0, y: 0, z: 0 },
        }) || sc.attenuation == (Vec3 { x: 0, y: 0, z: 0 }) || !v3_bounded(
            sc.scattered.origin@,
            GEOM_BOUND as int,
        ) || !v3_bounded(sc.scattered.direction@, GEOM_BOUND as int) || (
        sc.scattered.direction.x == 0 && sc.scattered.direction.y == 0
            && sc.scattered.direction.z == 0),
    ensures
        forall|h: Hit, m: Metal|
            !spec_metal_bounce_escapes(world, ms, origin, direction, max_bounce, h, m),
{
    assert forall|h: Hit, m: Metal|
        !spec_metal_bounce_escapes(world, ms, origin, direction, max_bounce, h, m) by {
        if spec_metal_bounce_escapes(world, ms, origin, direction, max_bounce, h, m) {
            let refl = v3_reflect_fx(direction, h.normal@);
            if refl.x == 0 && refl.y == 0 && refl.z == 0 {
                assert(sdot(refl, h.normal@) == 0) by (nonlinear_arith)
                    requires
                        refl.x == 0 && refl.y == 0 && refl.z == 0,
                        sdot(refl, h.normal@) == refl.x * h.normal@.x + refl.y * h.normal@.y
                            + refl.z * h.normal@.z;
            }
        }
    }
}

/// The terminal value `factor * (sky + emitted)` of a trace is exact
/// where the throughput is still one, and always nonnegative.
proof fn lemma_trace_result(factor: V3, e: V3)
    requires
        unit_range(factor.x) && unit_range(factor.y) && unit_range(factor.z),
        v3_nonneg(e),
        e.x <= i64::MAX && e.y <= i64::MAX && e.z <= i64::MAX,
    ensures
        v3_nonneg(crate::vec3::v3_fx_mul(factor, crate::vec3::v3_sat_add(v3_zero(), e))),
        factor === (V3 { x: SCALE as int, y: SCALE as int, z: SCALE as int })
            ==> crate::vec3::v3_fx_mul(factor, crate::vec3::v3_sat_add(v3_zero(), e)) === e,
{
    lemma_fx_mul_nonneg(factor.x, e.x);
    lemma_fx_mul_nonneg(factor.y, e.y);
    lemma_fx_mul_nonneg(factor.z, e.z);
    lemma_fx_mul_unit(e.x);
    lemma_fx_mul_unit(e.y);
    lemma_fx_mul_unit(e.z);
}

/// Fixed-point multiplication is symmetric.
proof fn lemma_fx_mul_comm(a: int, b: int)
    ensures
        crate::fixed::fx_mul(a, b) == crate::fixed::fx_mul(b, a),
{
    vstd::arithmetic::mul::lemma_mul_is_commutative(a, b);
}

/// The path-traced color of a ray: what `trace` returns, without the
/// intersection-test count.
pub fn color(
    ray: Ray,
    world: &Model,
    palette: &Vec<Material>,
    max_bounce: u32,
    sampler: &mut Sampler,
) -> (out: Vec3)
    requires
        model_bounded(*world),
        palette_wf(palette@),
        v3_bounded(ray.origin@, GEOM_BOUND as int),
        v3_bounded(ray.direction@, GEOM_BOUND as int),
        smag_sq(ray.direction@) > 0,
        max_bounce < 0xffff_ffffu32,
    ensures
        v3_nonneg(out@),
        spec_first_hit(*world, ray.origin@, ray.direction@) is None ==> out@ === v3_zero(),
        max_bounce == 0 && spec_first_hit(*world, ray.origin@, ray.direction@) is Some
            ==> out@ === v3_zero(),
        max_bounce >= 1 ==> (spec_first_hit_light(
            *world,
            palette@,
            ray.origin@,
            ray.direction@,
        ) matches Some(c) ==> out@ === c),
        forall|h: Hit, m: Metal| #[trigger] spec_metal_bounce_escapes(
            *world,
            palette@,
            ray.origin@,
            ray.direction@,
            max_bounce,
            h,
            m,
        ) ==> out@ === v3_fx_mul(
            m.albedo@,
            v3_sat_add(v3_zero(), spec_emit(palette@, h.material as int)),
        ),
{
    let (c, _tests) = trace(ray, world, palette, max_bounce, sampler);
    c
}

} // verus!
