//! The thin-lens camera: an orthonormal-ish viewing basis, a viewport
//! placed at the focus distance, and per-sample rays whose origin is
//! jittered inside the lens disk.
//!
//! The tangent of half the vertical field of view is taken as an input
//! (`half_height`) rather than an angle in degrees, since the tangent is
//! transcendental; the caller computes it once when it sets up the
//! render.

use vstd::prelude::*;
use crate::fixed::{fx_mul, sat_narrow, tdiv, SCALE};
use crate::ray::Ray;
use crate::rng::Sampler;
use crate::vec3::{
    lemma_normalize_fx_bounded, smag_sq, v3_bounded, v3_cross_fx, v3_fx_scale,
    v3_normalize_fx, v3_sat_add, v3_sat_sub, v3_sub, v3_zero, V3, Vec3,
};

verus! {

/// A thin-lens camera, fully determined by its construction inputs.
pub struct Camera {
    pub top_left_corner: Vec3,
    pub horizontal: Vec3,
    pub vertical: Vec3,
    pub origin: Vec3,
    pub u: Vec3,
    pub v: Vec3,
    pub w: Vec3,
    pub lens_radius: i64,
}

/// The camera a given configuration constructs, step for step: the basis
/// `w = normalize(look_from - look_at)`, `u = normalize(v_up x w)`,
/// `v = w x u`; the viewport corner and spans scaled by the focus
/// distance; and the lens radius as half the aperture.
pub open spec fn spec_camera(
    look_from: V3,
    look_at: V3,
    v_up: V3,
    half_height: int,
    aspect: int,
    aperture: int,
    focus_dist: int,
) -> Camera {
    let half_width = fx_mul(aspect, half_height);
    let w = v3_normalize_fx(v3_sub(look_from, look_at));
    let u = v3_normalize_fx(v3_cross_fx(v_up, w));
    let v = v3_cross_fx(w, u);
    let hw_f = fx_mul(half_width, focus_dist);
    let hh_f = fx_mul(half_height, focus_dist);
    let corner = v3_sat_sub(
        v3_sat_add(v3_sat_sub(look_from, v3_fx_scale(u, hw_f)), v3_fx_scale(v, hh_f)),
        v3_fx_scale(w, focus_dist),
    );
    Camera {
        top_left_corner: crate::vec3::v3_to_vec3(corner),
        horizontal: crate::vec3::v3_to_vec3(v3_fx_scale(u, crate::fixed::sat64(hw_f + hw_f))),
        vertical: crate::vec3::v3_to_vec3(v3_fx_scale(v, crate::fixed::sat64(hh_f + hh_f))),
        origin: crate::vec3::v3_to_vec3(look_from),
        u: crate::vec3::v3_to_vec3(u),
        v: crate::vec3::v3_to_vec3(v),
        w: crate::vec3::v3_to_vec3(w),
        lens_radius: tdiv(aperture, 2) as i64,
    }
}

/// The ray the camera casts toward the fractional viewport coordinates
/// `(s, t)` when the lens sample was `p`: the origin is offset within
/// the lens plane, and the direction points from the offset origin to
/// the viewport location.
pub open spec fn spec_get_ray(cam: Camera, s: int, t: int, p: V3) -> Ray {
    let rd = v3_fx_scale(p, cam.lens_radius as int);
    let offset = v3_sat_add(v3_fx_scale(cam.u@, rd.x), v3_fx_scale(cam.v@, rd.y));
    Ray {
        origin: crate::vec3::v3_to_vec3(v3_sat_add(cam.origin@, offset)),
        direction: crate::vec3::v3_to_vec3(
            v3_sat_sub(
                v3_sat_sub(
                    v3_sat_sub(
                        v3_sat_add(cam.top_left_corner@, v3_fx_scale(cam.horizontal@, s)),
                        v3_fx_scale(cam.vertical@, t),
                    ),
                    cam.origin@,
                ),
                offset,
            ),
        ),
    }
}

impl Camera {
    /// Construct the camera. `half_height` is the tangent of half the
    /// vertical field of view; `aspect` is width over height; an
    /// aperture of zero collapses the lens to a pinhole. The viewing
    /// direction and the cross of `v_up` with it must be nondegenerate.
    pub fn new(
        look_from: Vec3,
        look_at: Vec3,
        v_up: Vec3,
        half_height: i64,
        aspect: i64,
        aperture: i64,
        focus_dist: i64,
    ) -> (cam: Camera)
        requires
            v3_bounded(look_from@, 0x2000_0000_0000_0000),
            v3_bounded(look_at@, 0x2000_0000_0000_0000),
            v3_bounded(v_up@, 0x2000_0000_0000_0000),
            smag_sq(v3_sub(look_from@, look_at@)) > 0,
            smag_sq(v3_cross_fx(v_up@, v3_normalize_fx(v3_sub(look_from@, look_at@)))) > 0,
        ensures
            cam == spec_camera(
                look_from@,
                look_at@,
                v_up@,
                half_height as int,
                aspect as int,
                aperture as int,
                focus_dist as int,
            ),
    {
        let half_width = crate::fixed::mul_fx(aspect, half_height);
        let dir = look_from.sub(look_at);
        proof {
            assert(dir@ === v3_sub(look_from@, look_at@));
        }
        let w = dir.normalize();
        proof {
            lemma_normalize_fx_bounded(dir@);
        }
        let cu = v_up.cross(w);
        proof {
            crate::vec3::lemma_cross_fx_bounded(v_up@, w@, 0x2000_0000_0000_0000);
        }
        let u = cu.normalize();
        proof {
            lemma_normalize_fx_bounded(cu@);
        }
        let v = w.cross(u);
        let hw_f = crate::fixed::mul_fx(half_width, focus_dist);
        let hh_f = crate::fixed::mul_fx(half_height, focus_dist);
        let corner = look_from.sub(u.scale(hw_f)).add(v.scale(hh_f)).sub(w.scale(focus_dist));
        Camera {
            top_left_corner: corner,
            horizontal: u.scale(crate::fixed::sat_add(hw_f, hw_f)),
            vertical: v.scale(crate::fixed::sat_add(hh_f, hh_f)),
            origin: look_from,
            u,
            v,
            w,
            lens_radius: sat_narrow(crate::fixed::div_trunc(aperture as i128, 2)),
        }
    }

    /// Cast the ray for the fractional viewport coordinates `(s, t)`,
    /// jittering the origin inside the lens disk. With a zero lens
    /// radius the ray is the exact pinhole ray.
    pub fn get_ray(&self, s: i64, t: i64, sampler: &mut Sampler) -> (r: Ray)
        ensures
            exists|p: V3|
                (smag_sq(p) < SCALE * SCALE && v3_bounded(p, SCALE as int) && p.z == 0) && r
                    == #[trigger] spec_get_ray(*self, s as int, t as int, p),
            self.lens_radius == 0 ==> r == spec_get_ray(*self, s as int, t as int, v3_zero()),
    {
        let pd = sampler.random_in_unit_disk();
        let rd = pd.scale(self.lens_radius);
        let offset = self.u.scale(rd.x).add(self.v.scale(rd.y));
        let r = Ray::new(
            self.origin.add(offset),
            self.top_left_corner
                .add(self.horizontal.scale(s))
                .sub(self.vertical.scale(t))
                .sub(self.origin)
                .sub(offset),
        );
        proof {
            assert(r == spec_get_ray(*self, s as int, t as int, pd@));
            if self.lens_radius == 0 {
                vstd::arithmetic::div_mod::lemma_div_of0(SCALE as int);
                assert(v3_fx_scale(pd@, 0) === v3_fx_scale(v3_zero(), 0));
                assert(r == spec_get_ray(*self, s as int, t as int, v3_zero()));
            }
        }
        r
    }
}

} // verus!
