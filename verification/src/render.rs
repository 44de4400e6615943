//! The sampling driver: jittered per-pixel samples, averaged, gamma
//! corrected by a square root, clamped, and scaled to 8-bit channels.
//!
//! Pixels are independent of one another: `render` walks them row by
//! row, but a caller may just as well compute each pixel with
//! `render_pixel` in any order or concurrently, since every function
//! here only reads the scene and the palette.

use vstd::prelude::*;
use crate::camera::Camera;
use crate::fixed::{div_trunc, isqrt, sat_narrow, sat64, sqrt_floor, tdiv, SCALE};
use crate::integrator::color;
use crate::material::{palette_wf, Material};
use crate::model::{model_bounded, Model, GEOM_BOUND};
use crate::rng::Sampler;
use crate::vec3::{smag_sq, v3_bounded, V3, Vec3};

verus! {

/// One 8-bit output pixel.
#[derive(PartialEq, Eq, Structural, Copy, Clone, Debug)]
pub struct Pixel {
    pub r: u8,
    pub g: u8,
    pub b: u8,
}

/// The render parameters: output size, samples per pixel, and the
/// integrator's bounce budget.
#[derive(PartialEq, Eq, Structural, Copy, Clone, Debug)]
pub struct RenderConfig {
    pub width: u32,
    pub height: u32,
    pub samples: u32,
    pub max_depth: u32,
}

/// A render configuration the driver accepts: a nonempty image, at
/// least one sample, and a bounce budget below the counter's range.
pub open spec fn config_wf(cfg: RenderConfig) -> bool {
    &&& cfg.width > 0
    &&& cfg.height > 0
    &&& cfg.samples > 0
    &&& cfg.max_depth < 0xffff_ffffu32
}

/// The fractional viewport coordinate for pixel index `i` of `w`, with
/// the jitter `du` drawn in `[0, 1)`: `(i + du) / w` in fixed point,
/// exactly as the sampling loop computes it.
pub open spec fn spec_jitter_coord(i: int, du: int, w: int) -> int {
    sat64(tdiv(i * SCALE + du, w))
}

/// One pinhole sample of the viewport coordinates `(s, t)` is well
/// formed and first meets a diffuse light of emittance `c`.
pub open spec fn pinhole_sample_lit(
    camera: Camera,
    world: Model,
    ms: Seq<Material>,
    s: int,
    t: int,
    c: V3,
) -> bool {
    let ray = crate::camera::spec_get_ray(camera, s, t, crate::vec3::v3_zero());
    &&& v3_bounded(ray.origin@, GEOM_BOUND as int)
    &&& v3_bounded(ray.direction@, GEOM_BOUND as int)
    &&& !(ray.direction.x == 0 && ray.direction.y == 0 && ray.direction.z == 0)
    &&& crate::integrator::spec_first_hit_light(world, ms, ray.origin@, ray.direction@)
        == Some(c)
}

/// The pixel `(i, j)` deterministically sees the light color `c`: the
/// camera is a pinhole, the bounce budget admits a first bounce, and
/// every jitter the sampler can draw yields a well-formed ray whose
/// first hit is a diffuse light of emittance `c`. Under this premise
/// every sample's traced color is exactly `c`, whatever the random
/// draws, so the whole pixel is determined.
pub open spec fn pixel_sees_light(
    camera: Camera,
    world: Model,
    ms: Seq<Material>,
    i: int,
    j: int,
    cfg: RenderConfig,
    c: V3,
) -> bool {
    &&& camera.lens_radius == 0
    &&& cfg.max_depth >= 1
    &&& forall|du: int, dv: int|
        0 <= du < SCALE && 0 <= dv < SCALE ==> #[trigger] pinhole_sample_lit(
            camera,
            world,
            ms,
            spec_jitter_coord(i, du, cfg.width as int),
            spec_jitter_coord(j, dv, cfg.height as int),
            c,
        )
}

/// One output channel from a sample sum: the average over `n` samples
/// (negatives clamp to zero), square-rooted at the fixed-point scale for
/// gamma correction, clamped to one, then scaled by 255.99 and
/// truncated.
pub open spec fn spec_resolve_channel(sum: int, n: int) -> int {
    let avg = sat64(tdiv(sum, n));
    let a = if avg < 0 {
        0
    } else {
        avg
    };
    let g = sqrt_floor(a * SCALE);
    let c = if g > SCALE {
        SCALE as int
    } else {
        g
    };
    tdiv(c * 25599, 6553600)
}

/// The pixel a triple of channel sums resolves to.
pub open spec fn spec_resolve_pixel(sx: int, sy: int, sz: int, n: int) -> Pixel {
    Pixel {
        r: spec_resolve_channel(sx, n) as u8,
        g: spec_resolve_channel(sy, n) as u8,
        b: spec_resolve_channel(sz, n) as u8,
    }
}

/// Resolve one channel sum into its 8-bit value.
pub fn resolve_channel(sum: i128, n: u32) -> (b: u8)
    requires
        n > 0,
    ensures
        b as int == spec_resolve_channel(sum as int, n as int),
{
    let a: i64 = if sum <= 0 {
        proof {
            vstd::arithmetic::div_mod::lemma_div_pos_is_pos(
                crate::fixed::iabs(sum as int),
                n as int,
            );
        }
        0
    } else {
        let avg = sat_narrow(div_trunc(sum, n as i128));
        if avg < 0 {
            0
        } else {
            avg
        }
    };
    let gw = isqrt((a as u128) * 65536);
    proof {
        assert(gw * gw <= a * 65536);
        assert(gw < 0x8000_0000_0000_0000) by (nonlinear_arith)
            requires
                gw * gw <= a * 65536,
                a < 0x8000_0000_0000_0000,
                gw >= 0;
    }
    let g = gw as i64;
    let c: u64 = if g > SCALE {
        65536
    } else {
        g as u64
    };
    let q: u64 = (c * 25599) / 6553600;
    proof {
        vstd::arithmetic::div_mod::lemma_div_is_ordered(c as int * 25599, 65536int * 25599, 6553600);
        vstd::arithmetic::div_mod::lemma_div_pos_is_pos(c as int * 25599, 6553600);
        vstd::arithmetic::mul::lemma_mul_inequality(c as int, 65536, 25599);
    }
    q as u8
}

/// Resolve a triple of channel sums into a pixel.
pub fn resolve_pixel(sx: i128, sy: i128, sz: i128, n: u32) -> (p: Pixel)
    requires
        n > 0,
    ensures
        p == spec_resolve_pixel(sx as int, sy as int, sz as int, n as int),
{
    Pixel {
        r: resolve_channel(sx, n),
        g: resolve_channel(sy, n),
        b: resolve_channel(sz, n),
    }
}

/// Sum the traced colors of `samples` jittered camera rays through the
/// pixel `(i, j)`. Each channel sum is nonnegative and at most
/// `samples` times the largest channel value, and where the pixel
/// deterministically sees a light of color `c`, the sums are exactly
/// `samples * c`; everything else about the sums depends on the random
/// draws. A camera ray that leaves the geometric bounds, or whose
/// direction is zero, contributes black.
pub fn sample_pixel(
    camera: &Camera,
    world: &Model,
    palette: &Vec<Material>,
    i: u32,
    j: u32,
    cfg: RenderConfig,
    sampler: &mut Sampler,
) -> (sums: (i128, i128, i128))
    requires
        model_bounded(*world),
        palette_wf(palette@),
        config_wf(cfg),
    ensures
        0 <= sums.0 <= cfg.samples as int * 0x7fff_ffff_ffff_ffff,
        0 <= sums.1 <= cfg.samples as int * 0x7fff_ffff_ffff_ffff,
        0 <= sums.2 <= cfg.samples as int * 0x7fff_ffff_ffff_ffff,
        forall|lc: V3| #[trigger] pixel_sees_light(
            *camera,
            *world,
            palette@,
            i as int,
            j as int,
            cfg,
            lc,
        ) ==> sums.0 == cfg.samples as int * lc.x && sums.1 == cfg.samples as int * lc.y
            && sums.2 == cfg.samples as int * lc.z,
{
    let mut sx: i128 = 0;
    let mut sy: i128 = 0;
    let mut sz: i128 = 0;
    let mut k: u32 = 0;
    while k < cfg.samples
        invariant
            k <= cfg.samples,
            model_bounded(*world),
            palette_wf(palette@),
            config_wf(cfg),
            0 <= sx <= k as int * 0x7fff_ffff_ffff_ffff,
            0 <= sy <= k as int * 0x7fff_ffff_ffff_ffff,
            0 <= sz <= k as int * 0x7fff_ffff_ffff_ffff,
            forall|lc: V3| #[trigger] pixel_sees_light(
                *camera,
                *world,
                palette@,
                i as int,
                j as int,
                cfg,
                lc,
            ) ==> sx == k as int * lc.x && sy == k as int * lc.y && sz == k as int * lc.z,
        decreases cfg.samples - k,
    {
        let du = sampler.next_unit();
        let dv = sampler.next_unit();
        let iu: i64 = (i as i64) * SCALE + du;
        let jv: i64 = (j as i64) * SCALE + dv;
        let u = sat_narrow(div_trunc(iu as i128, cfg.width as i128));
        let v = sat_narrow(div_trunc(jv as i128, cfg.height as i128));
        let ray = camera.get_ray(u, v, sampler);
        let c: Vec3 = if ray.origin.within(GEOM_BOUND) && ray.direction.within(GEOM_BOUND)
            && !(ray.direction.x == 0 && ray.direction.y == 0 && ray.direction.z == 0) {
            proof {
                assert(smag_sq(ray.direction@) > 0) by (nonlinear_arith)
                    requires
                        !(ray.direction@.x == 0 && ray.direction@.y == 0
                            && ray.direction@.z == 0),
                        smag_sq(ray.direction@) == ray.direction@.x * ray.direction@.x
                            + ray.direction@.y * ray.direction@.y + ray.direction@.z
                            * ray.direction@.z;
            }
            color(ray, world, palette, cfg.max_depth, sampler)
        } else {
            Vec3::zero()
        };
        proof {
            let gi = i as int;
            let gj = j as int;
            assert forall|lc: V3| #[trigger] pixel_sees_light(
                *camera,
                *world,
                palette@,
                gi,
                gj,
                cfg,
                lc,
            ) implies sx + c.x == (k + 1) as int * lc.x && sy + c.y == (k + 1) as int * lc.y
                && sz + c.z == (k + 1) as int * lc.z by {
                assert(pinhole_sample_lit(
                    *camera,
                    *world,
                    palette@,
                    spec_jitter_coord(gi, du as int, cfg.width as int),
                    spec_jitter_coord(gj, dv as int, cfg.height as int),
                    lc,
                ));
                assert(u as int == spec_jitter_coord(gi, du as int, cfg.width as int));
                assert(v as int == spec_jitter_coord(gj, dv as int, cfg.height as int));
                assert(c@ === lc);
                assert((k + 1) as int * lc.x == k as int * lc.x + lc.x) by (nonlinear_arith);
                assert((k + 1) as int * lc.y == k as int * lc.y + lc.y) by (nonlinear_arith);
                assert((k + 1) as int * lc.z == k as int * lc.z + lc.z) by (nonlinear_arith);
            }
        }
        sx = sx + c.x as i128;
        sy = sy + c.y as i128;
        sz = sz + c.z as i128;
        k = k + 1;
    }
    (sx, sy, sz)
}

/// What the driver guarantees of a finished pixel: it is the exact
/// resolution of some channel sums within the sample bound, and where
/// the pixel deterministically sees a light of color `c`, it is exactly
/// the resolution of `samples` copies of `c`.
pub open spec fn pixel_contract(
    p: Pixel,
    camera: Camera,
    world: Model,
    ms: Seq<Material>,
    i: int,
    j: int,
    cfg: RenderConfig,
) -> bool {
    &&& exists|sx: int, sy: int, sz: int|
        {
            &&& 0 <= sx <= cfg.samples as int * 0x7fff_ffff_ffff_ffff
            &&& 0 <= sy <= cfg.samples as int * 0x7fff_ffff_ffff_ffff
            &&& 0 <= sz <= cfg.samples as int * 0x7fff_ffff_ffff_ffff
            &&& p == #[trigger] spec_resolve_pixel(sx, sy, sz, cfg.samples as int)
        }
    &&& forall|lc: V3| #[trigger] pixel_sees_light(camera, world, ms, i, j, cfg, lc)
        ==> p == spec_resolve_pixel(
            cfg.samples as int * lc.x,
            cfg.samples as int * lc.y,
            cfg.samples as int * lc.z,
            cfg.samples as int,
        )
}

/// Render one pixel: sum the sample colors and resolve them. The result
/// is the exact resolution of the accumulated channel sums; which sums
/// those are depends on the random draws, except where the pixel
/// deterministically sees a light.
pub fn render_pixel(
    camera: &Camera,
    world: &Model,
    palette: &Vec<Material>,
    i: u32,
    j: u32,
    cfg: RenderConfig,
    sampler: &mut Sampler,
) -> (p: Pixel)
    requires
        model_bounded(*world),
        palette_wf(palette@),
        config_wf(cfg),
    ensures
        pixel_contract(p, *camera, *world, palette@, i as int, j as int, cfg),
{
    let (sx, sy, sz) = sample_pixel(camera, world, palette, i, j, cfg, sampler);
    let p = resolve_pixel(sx, sy, sz, cfg.samples);
    proof {
        assert(p == spec_resolve_pixel(sx as int, sy as int, sz as int, cfg.samples as int));
    }
    p
}

/// The index of a pixel in an earlier row stays below the start of the
/// current row.
proof fn lemma_row_index(ii: int, jj: int, j: int, w: int)
    by (nonlinear_arith)
    requires
        0 <= ii < w,
        0 <= jj < j,
    ensures
        0 <= jj * w + ii < j * w,
{
}

/// Render the whole image, row by row from the top: the buffer holds
/// `width * height` pixels, the pixel `(i, j)` at index `j * width + i`,
/// and every pixel meets the per-pixel contract.
pub fn render(
    camera: &Camera,
    world: &Model,
    palette: &Vec<Material>,
    cfg: RenderConfig,
    sampler: &mut Sampler,
) -> (buf: Vec<Pixel>)
    requires
        model_bounded(*world),
        palette_wf(palette@),
        config_wf(cfg),
        cfg.width as int * cfg.height as int <= usize::MAX,
    ensures
        buf@.len() == cfg.width as int * cfg.height as int,
        forall|ii: int, jj: int|
            0 <= ii < cfg.width as int && 0 <= jj < cfg.height as int ==> pixel_contract(
                #[trigger] buf@[jj * cfg.width as int + ii],
                *camera,
                *world,
                palette@,
                ii,
                jj,
                cfg,
            ),
{
    let mut buf: Vec<Pixel> = Vec::new();
    let mut j: u32 = 0;
    while j < cfg.height
        invariant
            j <= cfg.height,
            model_bounded(*world),
            palette_wf(palette@),
            config_wf(cfg),
            cfg.width as int * cfg.height as int <= usize::MAX,
            buf@.len() == j as int * cfg.width as int,
            forall|ii: int, jj: int|
                0 <= ii < cfg.width as int && 0 <= jj < j as int ==> pixel_contract(
                    #[trigger] buf@[jj * cfg.width as int + ii],
                    *camera,
                    *world,
                    palette@,
                    ii,
                    jj,
                    cfg,
                ),
        decreases cfg.height - j,
    {
        let mut i: u32 = 0;
        while i < cfg.width
            invariant
                j < cfg.height,
                i <= cfg.width,
                model_bounded(*world),
                palette_wf(palette@),
                config_wf(cfg),
                cfg.width as int * cfg.height as int <= usize::MAX,
                buf@.len() == j as int * cfg.width as int + i as int,
                forall|ii: int, jj: int|
                    0 <= ii < cfg.width as int && 0 <= jj < j as int ==> pixel_contract(
                        #[trigger] buf@[jj * cfg.width as int + ii],
                        *camera,
                        *world,
                        palette@,
                        ii,
                        jj,
                        cfg,
                    ),
                forall|ii: int|
                    0 <= ii < i as int ==> pixel_contract(
                        #[trigger] buf@[j as int * cfg.width as int + ii],
                        *camera,
                        *world,
                        palette@,
                        ii,
                        j as int,
                        cfg,
                    ),
            decreases cfg.width - i,
        {
            proof {
                assert((j as int + 1) * cfg.width as int <= cfg.height as int
                    * cfg.width as int) by (nonlinear_arith)
                    requires
                        j as int + 1 <= cfg.height as int,
                        cfg.width as int >= 0;
                assert(cfg.height as int * cfg.width as int == cfg.width as int
                    * cfg.height as int) by (nonlinear_arith);
            }
            let p = render_pixel(camera, world, palette, i, j, cfg, sampler);
            buf.push(p);
            proof {
                let w = cfg.width as int;
                assert forall|ii: int, jj: int| 0 <= ii < w && 0 <= jj < j as int implies
                    pixel_contract(
                        #[trigger] buf@[jj * w + ii],
                        *camera,
                        *world,
                        palette@,
                        ii,
                        jj,
                        cfg,
                    ) by {
                    lemma_row_index(ii, jj, j as int, w);
                }
            }
            i = i + 1;
        }
        proof {
            assert((j as int + 1) * cfg.width as int == j as int * cfg.width as int
                + cfg.width as int) by (nonlinear_arith);
            let w = cfg.width as int;
            assert forall|ii: int, jj: int| 0 <= ii < w && 0 <= jj < j as int + 1 implies
                pixel_contract(
                    #[trigger] buf@[jj * w + ii],
                    *camera,
                    *world,
                    palette@,
                    ii,
                    jj,
                    cfg,
                ) by {
                if jj < j as int {
                    lemma_row_index(ii, jj, j as int, w);
                }
            }
        }
        j = j + 1;
    }
    proof {
        assert(buf@.len() == cfg.height as int * cfg.width as int);
        assert(cfg.height as int * cfg.width as int == cfg.width as int * cfg.height as int)
            by (nonlinear_arith);
    }
    buf
}

} // verus!
