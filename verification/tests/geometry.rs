//! Ray-sphere and ray-scene intersection.

use raytrace::model::{Model, Sphere};
use raytrace::ray::Ray;
use raytrace::vec3::{vec3, Vec3};

const S: i64 = 65536;
const T_MAX: i64 = i64::MAX;

fn axis_ray() -> Ray {
    // from (0, 0, 5) straight toward -z
    Ray::new(vec3(0, 0, 5 * S), vec3(0, 0, -S))
}

#[test]
fn unit_sphere_head_on_hit() {
    // a ray from (0,0,5) toward -z against a unit sphere at the origin
    // hits at t = 4 with outward normal (0, 0, 1)
    let s = Sphere::new(Vec3::zero(), S, 0);
    let h = s.hit(&axis_ray(), 1, T_MAX).expect("must hit");
    assert_eq!(h.parameter, 4 * S);
    assert_eq!(h.point, vec3(0, 0, S));
    assert_eq!(h.normal, vec3(0, 0, S));
    assert_eq!(h.material, 0);
}

#[test]
fn negative_radius_flips_normal() {
    let s = Sphere::new(Vec3::zero(), -S, 0);
    let h = s.hit(&axis_ray(), 1, T_MAX).expect("must hit");
    assert_eq!(h.parameter, 4 * S);
    assert_eq!(h.normal, vec3(0, 0, -S));
}

#[test]
fn parallel_ray_beyond_radius_misses() {
    // aimed parallel to the sphere's axis, two radii away from it
    let s = Sphere::new(Vec3::zero(), S, 0);
    let ray = Ray::new(vec3(0, 2 * S, 5 * S), vec3(0, 0, -S));
    assert!(s.hit(&ray, 1, T_MAX).is_none());
}

#[test]
fn hit_respects_parameter_range() {
    let s = Sphere::new(Vec3::zero(), S, 0);
    // the whole sphere lies beyond t = 2 on this ray
    assert!(axis_ray().point_at_parameter(4 * S) == vec3(0, 0, S));
    assert!(s.hit(&axis_ray(), 1, 2 * S).is_none());
    // between the two roots (4 and 6), the far root is returned
    let h = s.hit(&axis_ray(), 5 * S, 7 * S).expect("far root");
    assert_eq!(h.parameter, 6 * S);
}

#[test]
fn list_hit_returns_nearer_of_two_overlapping_spheres() {
    // both spheres lie on the ray's path and overlap; the nearer
    // intersection wins regardless of the order in the list
    let near = Sphere::new(vec3(0, 0, -3 * S), S, 1);
    let far = Sphere::new(vec3(0, 0, -4 * S), 3 * S / 2, 2);
    let ray = Ray::new(Vec3::zero(), vec3(0, 0, -S));

    let world = Model::list(vec![Model::Sphere(near), Model::Sphere(far)]);
    let h = world.hit(&ray, 1, T_MAX).expect("must hit");
    assert_eq!(h.parameter, 2 * S);
    assert_eq!(h.material, 1);

    let swapped = Model::list(vec![Model::Sphere(far), Model::Sphere(near)]);
    let h2 = swapped.hit(&ray, 1, T_MAX).expect("must hit");
    assert_eq!(h2.parameter, 2 * S);
    assert_eq!(h2.material, 1);
}

#[test]
fn nested_lists_find_the_same_hit() {
    let near = Sphere::new(vec3(0, 0, -3 * S), S, 1);
    let far = Sphere::new(vec3(0, 0, -4 * S), 3 * S / 2, 2);
    let ray = Ray::new(Vec3::zero(), vec3(0, 0, -S));
    let world = Model::list(vec![
        Model::list(vec![Model::Sphere(far)]),
        Model::list(vec![Model::Sphere(near), Model::list(vec![])]),
    ]);
    let h = world.hit(&ray, 1, T_MAX).expect("must hit");
    assert_eq!(h.parameter, 2 * S);
    assert_eq!(h.material, 1);
}

#[test]
fn empty_list_never_hits() {
    let world = Model::list(vec![]);
    assert!(world.hit(&axis_ray(), 1, T_MAX).is_none());
}

#[test]
fn ray_point_evaluation() {
    let r = Ray::new(vec3(S, 0, 0), vec3(0, 2 * S, 0));
    assert_eq!(r.point_at_parameter(S / 2), vec3(S, S, 0));
    assert_eq!(r.mag(), 2 * S);
    let z = Ray::zero();
    assert_eq!(z.origin, Vec3::zero());
    assert_eq!(z.direction, Vec3::zero());
}
