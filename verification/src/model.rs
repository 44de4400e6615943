//! Scene geometry: spheres, recursive lists of models, and ray
//! intersection, mirrored exactly by specification functions.

use vstd::prelude::*;
use crate::fixed::{
    iabs, is_sqrt_floor, lemma_mul_abs_bound, lemma_sqrt_floor_exists, div_trunc, isqrt,
    sat_narrow, sat64, sqrt_floor, tdiv, SCALE,
};
use crate::ray::{spec_point_at, Ray};
use crate::vec3::{sdot, smag_sq, v3_bounded, v3_sub, V3, Vec3};

verus! {

broadcast use vstd::std_specs::vec::group_vec_axioms;

/// Bound on scene coordinates and radii: 2^30, about 16384 world units
/// in 16.16 fixed point. It keeps every intermediate product of the
/// intersection arithmetic inside 128 bits.
pub const GEOM_BOUND: i64 = 0x4000_0000;

/// A ray-surface intersection: the ray parameter, the point reached,
/// the surface normal there, and an index into the material palette.
#[derive(PartialEq, Eq, Structural, Copy, Clone, Debug)]
pub struct Hit {
    pub parameter: i64,
    pub point: Vec3,
    pub normal: Vec3,
    pub material: usize,
}

/// A sphere with a signed radius. A negative radius flips the normal
/// inward, which builds hollow shells; a zero radius is rejected by
/// well-formedness because the normal would divide by zero.
#[derive(Copy, Clone, Debug)]
pub struct Sphere {
    pub center: Vec3,
    pub radius: i64,
    pub material: usize,
}

/// A scene: a sphere, or an ordered list of sub-scenes.
pub enum Model {
    Sphere(Sphere),
    List(Vec<Model>),
}

/// A sphere whose center and radius stay within the geometric bound,
/// with a nonzero radius.
pub open spec fn sphere_bounded(s: Sphere) -> bool {
    &&& v3_bounded(s.center@, GEOM_BOUND as int)
    &&& iabs(s.radius as int) <= GEOM_BOUND as int
    &&& s.radius != 0
}

/// Every sphere of the scene is well formed.
pub open spec fn model_bounded(m: Model) -> bool
    decreases m,
{
    match m {
        Model::Sphere(s) => sphere_bounded(s),
        Model::List(cs) => forall|i: int|
            0 <= i < cs@.len() ==> model_bounded(#[trigger] cs@[i]),
    }
}

/// The hit record a sphere produces at parameter `t`: the point reached
/// along the ray, and the normal `(point - center) * SCALE / radius`,
/// whose sign follows the sign of the radius.
pub open spec fn spec_hit_record(s: Sphere, origin: V3, direction: V3, t: int) -> Hit {
    let p = spec_point_at(origin, direction, t);
    Hit {
        parameter: t as i64,
        point: Vec3 { x: p.x as i64, y: p.y as i64, z: p.z as i64 },
        normal: Vec3 {
            x: sat64(tdiv((p.x - s.center@.x) * SCALE, s.radius as int)) as i64,
            y: sat64(tdiv((p.y - s.center@.y) * SCALE, s.radius as int)) as i64,
            z: sat64(tdiv((p.z - s.center@.z) * SCALE, s.radius as int)) as i64,
        },
        material: s.material,
    }
}

/// The discriminant of the intersection quadratic, exactly as computed:
/// with `oc = origin - center`, `a = |direction|^2`, `b = oc . direction`
/// and `c = |oc|^2 - radius^2`, it is `b^2 - a * c`.
pub open spec fn spec_discriminant(s: Sphere, origin: V3, direction: V3) -> int {
    let oc = v3_sub(origin, s.center@);
    let a = smag_sq(direction);
    let b = sdot(oc, direction);
    let c = smag_sq(oc) - s.radius as int * s.radius as int;
    b * b - a * c
}

/// The two candidate roots of the intersection quadratic, smaller first:
/// `(-b -+ sqrt_floor(disc)) * SCALE / a`, truncated toward zero.
/// Meaningful only when the discriminant is positive.
pub open spec fn spec_roots(s: Sphere, origin: V3, direction: V3) -> (int, int) {
    let oc = v3_sub(origin, s.center@);
    let a = smag_sq(direction);
    let b = sdot(oc, direction);
    let sq = sqrt_floor(spec_discriminant(s, origin, direction));
    (tdiv((-b - sq) * SCALE, a), tdiv((-b + sq) * SCALE, a))
}

/// Ray-sphere intersection: if the discriminant is positive, the smaller
/// root is returned when it lies strictly inside `(tmin, tmax)`, else the
/// larger root when it does; otherwise there is no hit.
pub open spec fn spec_sphere_hit(
    s: Sphere,
    origin: V3,
    direction: V3,
    tmin: int,
    tmax: int,
) -> Option<Hit> {
    if spec_discriminant(s, origin, direction) > 0 {
        let (t1, t2) = spec_roots(s, origin, direction);
        if tmin < t1 && t1 < tmax {
            Some(spec_hit_record(s, origin, direction, t1))
        } else if tmin < t2 && t2 < tmax {
            Some(spec_hit_record(s, origin, direction, t2))
        } else {
            None
        }
    } else {
        None
    }
}

/// The fold that scans a list of models from index `i` with the current
/// best hit and the narrowed upper parameter bound.
pub open spec fn spec_list_hit_from(
    cs: Seq<Model>,
    i: int,
    origin: V3,
    direction: V3,
    tmin: int,
    cur_max: int,
    best: Option<Hit>,
) -> Option<Hit>
    decreases cs, 1int, cs.len() - i,
{
    if i < 0 || i >= cs.len() {
        best
    } else {
        match spec_model_hit(cs[i], origin, direction, tmin, cur_max) {
            Some(h) => spec_list_hit_from(
                cs,
                i + 1,
                origin,
                direction,
                tmin,
                h.parameter as int,
                Some(h),
            ),
            None => spec_list_hit_from(cs, i + 1, origin, direction, tmin, cur_max, best),
        }
    }
}

/// Ray-scene intersection: a sphere intersects directly; a list scans its
/// children in order, narrowing the upper parameter bound to the closest
/// hit found so far, so the result is the nearest hit of the subtree.
pub open spec fn spec_model_hit(
    m: Model,
    origin: V3,
    direction: V3,
    tmin: int,
    tmax: int,
) -> Option<Hit>
    decreases m, 0int, 0int,
{
    match m {
        Model::Sphere(s) => spec_sphere_hit(s, origin, direction, tmin, tmax),
        Model::List(cs) => spec_list_hit_from(cs@, 0, origin, direction, tmin, tmax, None),
    }
}

/// The two candidate roots come out in order: the root built from
/// `-b - sqrt(disc)` is never beyond the one built from `-b + sqrt(disc)`.
pub proof fn lemma_sphere_roots_ordered(s: Sphere, origin: V3, direction: V3)
    requires
        smag_sq(direction) > 0,
        spec_discriminant(s, origin, direction) > 0,
    ensures
        spec_roots(s, origin, direction).0 <= spec_roots(s, origin, direction).1,
{
    let oc = v3_sub(origin, s.center@);
    let a = smag_sq(direction);
    let b = sdot(oc, direction);
    let sq = sqrt_floor(spec_discriminant(s, origin, direction));
    lemma_sqrt_floor_exists(spec_discriminant(s, origin, direction));
    crate::fixed::lemma_tdiv_monotone((-b - sq) * SCALE, (-b + sq) * SCALE, a);
}

/// A sphere hit's parameter lies strictly inside the requested range,
/// and its record is the one its parameter builds.
pub proof fn lemma_sphere_hit_range(s: Sphere, origin: V3, direction: V3, tmin: int, tmax: int)
    requires
        i64::MIN <= tmin,
        tmax <= i64::MAX,
    ensures
        spec_sphere_hit(s, origin, direction, tmin, tmax) matches Some(h) ==> ({
            &&& tmin < h.parameter as int
            &&& (h.parameter as int) < tmax
            &&& h == spec_hit_record(s, origin, direction, h.parameter as int)
        }),
{
}

/// Narrowing the upper end of the range keeps a hit that lies below the
/// new end, and discards everything else: the sphere cannot answer with
/// a different, farther intersection instead.
pub proof fn lemma_sphere_hit_narrow(
    s: Sphere,
    origin: V3,
    direction: V3,
    tmin: int,
    t1: int,
    t2: int,
)
    requires
        smag_sq(direction) > 0,
        i64::MIN <= tmin,
        t1 <= i64::MAX,
        t2 <= t1,
    ensures
        (spec_sphere_hit(s, origin, direction, tmin, t1) matches Some(h) && (h.parameter as int)
            < t2) ==> spec_sphere_hit(s, origin, direction, tmin, t2) == spec_sphere_hit(
            s,
            origin,
            direction,
            tmin,
            t1,
        ),
        (spec_sphere_hit(s, origin, direction, tmin, t1) matches Some(h) && (h.parameter as int)
            >= t2) ==> spec_sphere_hit(s, origin, direction, tmin, t2) is None,
        spec_sphere_hit(s, origin, direction, tmin, t1) is None ==> spec_sphere_hit(
            s,
            origin,
            direction,
            tmin,
            t2,
        ) is None,
{
    if spec_discriminant(s, origin, direction) > 0 {
        lemma_sphere_roots_ordered(s, origin, direction);
    }
}

/// A ray running parallel to an axis of the scene, farther from a
/// sphere's center than one radius in the perpendicular plane, misses
/// that sphere: its discriminant is negative, whatever the range.
pub proof fn lemma_parallel_ray_misses(
    s: Sphere,
    origin: V3,
    direction: V3,
    tmin: int,
    tmax: int,
)
    requires
        direction.x == 0,
        direction.y == 0,
        direction.z != 0,
        (origin.x - s.center@.x) * (origin.x - s.center@.x) + (origin.y - s.center@.y) * (origin.y
            - s.center@.y) > s.radius as int * s.radius as int,
    ensures
        spec_sphere_hit(s, origin, direction, tmin, tmax) is None,
{
    let ox = origin.x - s.center@.x;
    let oy = origin.y - s.center@.y;
    let oz = origin.z - s.center@.z;
    let dz = direction.z;
    let rr = s.radius as int * s.radius as int;
    assert((oz * dz) * (oz * dz) - (dz * dz) * ((ox * ox + oy * oy + oz * oz) - rr) < 0)
        by (nonlinear_arith)
        requires
            dz != 0,
            ox * ox + oy * oy > rr;
    assert(spec_discriminant(s, origin, direction) == (oz * dz) * (oz * dz) - (dz * dz) * ((ox
        * ox + oy * oy + oz * oz) - rr));
}

/// The list scan returns the nearer intersection's record: for a list of
/// two spheres that a ray both hits, the result is the hit with the
/// smaller parameter, with the earlier child winning a tie.
pub proof fn lemma_list_hit_nearest(
    m: Model,
    s1: Sphere,
    s2: Sphere,
    origin: V3,
    direction: V3,
    tmin: int,
    tmax: int,
    h1: Hit,
    h2: Hit,
)
    requires
        smag_sq(direction) > 0,
        i64::MIN <= tmin,
        tmax <= i64::MAX,
        m matches Model::List(cs) && cs@.len() == 2 && cs@[0] == Model::Sphere(s1) && cs@[1]
            == Model::Sphere(s2),
        spec_sphere_hit(s1, origin, direction, tmin, tmax) == Some(h1),
        spec_sphere_hit(s2, origin, direction, tmin, tmax) == Some(h2),
    ensures
        h1.parameter <= h2.parameter ==> spec_model_hit(m, origin, direction, tmin, tmax)
            == Some(h1),
        h2.parameter < h1.parameter ==> spec_model_hit(m, origin, direction, tmin, tmax)
            == Some(h2),
{
    let cs = m->List_0;
    lemma_sphere_hit_range(s1, origin, direction, tmin, tmax);
    lemma_sphere_hit_range(s2, origin, direction, tmin, tmax);
    lemma_sphere_hit_narrow(s2, origin, direction, tmin, tmax, h1.parameter as int);
    assert(spec_model_hit(cs@[0], origin, direction, tmin, tmax) == Some(h1));
    assert(spec_model_hit(m, origin, direction, tmin, tmax) == spec_list_hit_from(
        cs@,
        0,
        origin,
        direction,
        tmin,
        tmax,
        None,
    ));
    assert(spec_list_hit_from(cs@, 0, origin, direction, tmin, tmax, None)
        == spec_list_hit_from(cs@, 1, origin, direction, tmin, h1.parameter as int, Some(h1)));
    let narrowed = spec_sphere_hit(s2, origin, direction, tmin, h1.parameter as int);
    assert(spec_model_hit(cs@[1], origin, direction, tmin, h1.parameter as int) == narrowed);
    if (h2.parameter as int) < h1.parameter as int {
        assert(narrowed == Some(h2));
        assert(spec_list_hit_from(cs@, 1, origin, direction, tmin, h1.parameter as int, Some(h1))
            == spec_list_hit_from(
            cs@,
            2,
            origin,
            direction,
            tmin,
            h2.parameter as int,
            Some(h2),
        ));
    } else {
        assert(narrowed is None);
        assert(spec_list_hit_from(cs@, 1, origin, direction, tmin, h1.parameter as int, Some(h1))
            == spec_list_hit_from(
            cs@,
            2,
            origin,
            direction,
            tmin,
            h1.parameter as int,
            Some(h1),
        ));
    }
}

impl Sphere {
    /// Construct a sphere from its center, signed radius, and the index
    /// of its material in the palette.
    pub fn new(center: Vec3, radius: i64, material: usize) -> (r: Sphere)
        ensures
            r.center == center,
            r.radius == radius,
            r.material == material,
    {
        Sphere { center, radius, material }
    }

    /// Intersect a ray with this sphere inside the open parameter range
    /// `(t_min, t_max)`.
    pub fn hit(&self, ray: &Ray, t_min: i64, t_max: i64) -> (r: Option<Hit>)
        requires
            sphere_bounded(*self),
            v3_bounded(ray.origin@, GEOM_BOUND as int),
            v3_bounded(ray.direction@, GEOM_BOUND as int),
            smag_sq(ray.direction@) > 0,
        ensures
            r == spec_sphere_hit(*self, ray.origin@, ray.direction@, t_min as int, t_max as int),
    {
        let ghost go = ray.origin@;
        let ghost gd = ray.direction@;
        let ghost gc = self.center@;
        let oc = ray.origin.sub(self.center);
        proof {
            assert(oc@ === v3_sub(go, gc));
        }
        let a: i128 = ray.direction.dot(ray.direction);
        let b: i128 = oc.dot(ray.direction);
        proof {
            crate::vec3::lemma_sdot_bound(oc@, gd, 0x8000_0000, 0x4000_0000);
            crate::vec3::lemma_sdot_bound(oc@, oc@, 0x8000_0000, 0x8000_0000);
            lemma_mul_abs_bound(self.radius as int, self.radius as int, 0x4000_0000, 0x4000_0000);
            lemma_mul_abs_bound(b as int, b as int, 0x6000_0000_0000_0000, 0x6000_0000_0000_0000);
        }
        let radius_sq: i128 = (self.radius as i128) * (self.radius as i128);
        let c: i128 = oc.dot(oc) - radius_sq;
        proof {
            crate::vec3::lemma_sdot_bound(gd, gd, 0x4000_0000, 0x4000_0000);
            lemma_mul_abs_bound(a as int, c as int, 0x3000_0000_0000_0000, 0xD000_0000_0000_0000);
        }
        let disc: i128 = b * b - a * c;
        assert(disc == spec_discriminant(*self, go, gd));
        if disc > 0 {
            let sq: i128 = isqrt(disc as u128) as i128;
            proof {
                lemma_mul_abs_bound(
                    -(b as int) - (sq as int),
                    SCALE as int,
                    0x4_0000_0000_0000_0000,
                    65536,
                );
                lemma_mul_abs_bound(
                    -(b as int) + (sq as int),
                    SCALE as int,
                    0x4_0000_0000_0000_0000,
                    65536,
                );
            }
            let t1: i128 = div_trunc((-b - sq) * (SCALE as i128), a);
            if (t_min as i128) < t1 && t1 < (t_max as i128) {
                let parameter = t1 as i64;
                return Some(self.make_record(ray, parameter));
            }
            let t2: i128 = div_trunc((-b + sq) * (SCALE as i128), a);
            if (t_min as i128) < t2 && t2 < (t_max as i128) {
                let parameter = t2 as i64;
                return Some(self.make_record(ray, parameter));
            }
            None
        } else {
            None
        }
    }

    /// Build the hit record for an accepted parameter.
    fn make_record(&self, ray: &Ray, parameter: i64) -> (r: Hit)
        requires
            sphere_bounded(*self),
            v3_bounded(ray.direction@, 0x4000_0000_0000_0000),
        ensures
            r == spec_hit_record(*self, ray.origin@, ray.direction@, parameter as int),
    {
        let point = ray.point_at_parameter(parameter);
        proof {
            lemma_mul_abs_bound(
                point@.x - self.center@.x,
                SCALE as int,
                0x1_0000_0000_0000_0000,
                65536,
            );
            lemma_mul_abs_bound(
                point@.y - self.center@.y,
                SCALE as int,
                0x1_0000_0000_0000_0000,
                65536,
            );
            lemma_mul_abs_bound(
                point@.z - self.center@.z,
                SCALE as int,
                0x1_0000_0000_0000_0000,
                65536,
            );
        }
        let nx = sat_narrow(div_trunc(
            ((point.x as i128) - (self.center.x as i128)) * (SCALE as i128),
            self.radius as i128,
        ));
        let ny = sat_narrow(div_trunc(
            ((point.y as i128) - (self.center.y as i128)) * (SCALE as i128),
            self.radius as i128,
        ));
        let nz = sat_narrow(div_trunc(
            ((point.z as i128) - (self.center.z as i128)) * (SCALE as i128),
            self.radius as i128,
        ));
        Hit {
            parameter,
            point,
            normal: Vec3 { x: nx, y: ny, z: nz },
            material: self.material,
        }
    }
}

impl Model {
    /// Convenience method to construct a sphere scene.
    pub fn sphere(center: Vec3, radius: i64, material: usize) -> (r: Model)
        ensures
            r == Model::Sphere(Sphere { center, radius, material }),
    {
        Model::Sphere(Sphere::new(center, radius, material))
    }

    /// Convenience method to construct a list scene.
    pub fn list(vec: Vec<Model>) -> (r: Model)
        ensures
            r == Model::List(vec),
    {
        Model::List(vec)
    }

    /// Intersect a ray with the scene inside the open parameter range
    /// `(t_min, t_max)`, returning the nearest hit of the whole subtree.
    pub fn hit(&self, ray: &Ray, t_min: i64, t_max: i64) -> (r: Option<Hit>)
        requires
            model_bounded(*self),
            v3_bounded(ray.origin@, GEOM_BOUND as int),
            v3_bounded(ray.direction@, GEOM_BOUND as int),
            smag_sq(ray.direction@) > 0,
        ensures
            r == spec_model_hit(*self, ray.origin@, ray.direction@, t_min as int, t_max as int),
        decreases *self, 0int, 0int,
    {
        match self {
            Model::Sphere(s) => s.hit(ray, t_min, t_max),
            Model::List(list) => {
                let ghost cs = list@;
                let mut hit_record: Option<Hit> = None;
                let mut closest_so_far: i64 = t_max;
                let mut k: usize = 0;
                while k < list.len()
                    invariant
                        0 <= k <= list.len(),
                        cs === list@,
                        model_bounded(*self),
                        self matches Model::List(l) && l@ === cs,
                        v3_bounded(ray.origin@, GEOM_BOUND as int),
                        v3_bounded(ray.direction@, GEOM_BOUND as int),
                        smag_sq(ray.direction@) > 0,
                        spec_list_hit_from(
                            cs,
                            k as int,
                            ray.origin@,
                            ray.direction@,
                            t_min as int,
                            closest_so_far as int,
                            hit_record,
                        ) == spec_list_hit_from(
                            cs,
                            0,
                            ray.origin@,
                            ray.direction@,
                            t_min as int,
                            t_max as int,
                            None,
                        ),
                    decreases list.len() - k,
                {
                    proof {
                        assert(model_bounded(cs[k as int]));
                    }
                    if let Some(h) = list[k].hit(ray, t_min, closest_so_far) {
                        closest_so_far = h.parameter;
                        hit_record = Some(h);
                    }
                    k += 1;
                }
                hit_record
            },
        }
    }
}

} // verus!
