//! Material scattering and emission.

use raytrace::material::{Dielectric, DiffuseLight, Lambertian, Material, Metal, Scatter};
use raytrace::model::Hit;
use raytrace::ray::Ray;
use raytrace::rng::Sampler;
use raytrace::vec3::{vec3, Vec3};

const S: i64 = 65536;

fn head_on_hit() -> Hit {
    Hit {
        parameter: 4 * S,
        point: vec3(0, 0, S),
        normal: vec3(0, 0, S),
        material: 0,
    }
}

#[test]
fn lambertian_scatter_keeps_albedo_and_origin() {
    let mat = Lambertian::new(vec3(S / 2, S / 4, S));
    let r_in = Ray::new(vec3(0, 0, 5 * S), vec3(0, 0, -S));
    let rec = head_on_hit();
    let mut sampler = Sampler::new(42);
    for _ in 0..32 {
        let sc = mat.scatter(&r_in, &rec, &mut sampler);
        assert_eq!(sc.attenuation, vec3(S / 2, S / 4, S));
        assert_eq!(sc.scattered.origin, rec.point);
    }
}

#[test]
fn metal_with_zero_fuzz_reflects_exactly() {
    let mat = Metal::new(Vec3::one(), 0);
    // incoming (1, -1, 0) against the normal (0, 1, 0)
    let r_in = Ray::new(vec3(0, S, 0), vec3(S, -S, 0));
    let rec = Hit { parameter: S, point: vec3(S, 0, 0), normal: vec3(0, S, 0), material: 0 };
    let mut sampler = Sampler::new(1);
    let sc = mat.scatter(&r_in, &rec, &mut sampler);
    assert_eq!(sc.scattered.direction, vec3(S, S, 0));
    assert_eq!(sc.scattered.origin, rec.point);
    assert_eq!(sc.attenuation, Vec3::one());
    // the mirror law: equal angles on both sides of the normal
    let d = r_in.direction;
    let r = sc.scattered.direction;
    assert_eq!(r.dot(rec.normal), -(d.dot(rec.normal)));
    assert_eq!(r.mag_sq(), d.mag_sq());
}

#[test]
fn metal_absorbs_backward_scatter() {
    let mat = Metal::new(Vec3::one(), 0);
    // hitting the inside of a surface: the reflection points into it
    let r_in = Ray::new(Vec3::zero(), vec3(0, 0, -S));
    let rec = Hit {
        parameter: S,
        point: vec3(0, 0, -S),
        normal: vec3(0, 0, -S),
        material: 0,
    };
    let mut sampler = Sampler::new(1);
    let sc = mat.scatter(&r_in, &rec, &mut sampler);
    assert_eq!(sc, Scatter::zero());
}

#[test]
fn metal_clamps_fuzz_to_one() {
    let m = Metal::new(Vec3::one(), 3 * S);
    assert_eq!(m.fuzz, S);
    let m2 = Metal::new(Vec3::one(), S / 2);
    assert_eq!(m2.fuzz, S / 2);
}

#[test]
fn schlick_at_normal_incidence_is_base_reflectance() {
    // for n = 1.5: ((1 - 1.5) / (1 + 1.5))^2 = 0.04, which is 2621 in
    // 16.16 fixed point after truncation
    assert_eq!(Dielectric::schlick(S, 98304), 2621);
    // for n = 1 the base reflectance vanishes entirely
    assert_eq!(Dielectric::schlick(S, S), 0);
}

#[test]
fn refract_head_on_is_straight_through() {
    let v = vec3(0, 0, -S);
    let n = vec3(0, 0, S);
    let w = Dielectric::refract(v, n, S).expect("no total internal reflection head-on");
    assert_eq!(w, vec3(0, 0, -S));
}

#[test]
fn refract_reports_total_internal_reflection() {
    // grazing exit with a high ratio: the discriminant goes negative
    let v = vec3(S, -S / 8, 0);
    let n = vec3(0, S, 0);
    assert!(Dielectric::refract(v, n, 3 * S).is_none());
}

#[test]
fn dielectric_with_unit_index_passes_straight_through() {
    let mat = Dielectric::new(S);
    let r_in = Ray::new(vec3(0, 0, 5 * S), vec3(0, 0, -S));
    let rec = head_on_hit();
    let mut sampler = Sampler::new(9);
    for _ in 0..16 {
        let sc = mat.scatter(&r_in, &rec, &mut sampler);
        assert_eq!(sc.attenuation, Vec3::one());
        assert_eq!(sc.scattered.origin, rec.point);
        assert_eq!(sc.scattered.direction, vec3(0, 0, -S));
    }
}

#[test]
fn diffuse_light_emits_and_absorbs() {
    let light = DiffuseLight::new(vec3(S, S / 2, S / 4));
    assert_eq!(light.emit(&head_on_hit()), vec3(S, S / 2, S / 4));

    let palette = vec![Material::diffuse_light(vec3(S, S / 2, S / 4))];
    let r_in = Ray::new(vec3(0, 0, 5 * S), vec3(0, 0, -S));
    let mut sampler = Sampler::new(3);
    let sc = Material::scatter(&palette, 0, &r_in, &head_on_hit(), &mut sampler);
    assert_eq!(sc, Scatter::zero());
    assert_eq!(Material::emit(&palette, 0, &head_on_hit()), vec3(S, S / 2, S / 4));
}

#[test]
fn combined_scatters_like_scatterer_and_emits_like_emitter() {
    let palette = vec![
        Material::metal(vec3(S, S / 2, S / 4), 0),
        Material::diffuse_light(vec3(S / 8, S / 8, S / 8)),
        Material::Combined { scatterer: 0, emitter: 1 },
    ];
    let r_in = Ray::new(vec3(0, S, 0), vec3(S, -S, 0));
    let rec = Hit { parameter: S, point: vec3(S, 0, 0), normal: vec3(0, S, 0), material: 2 };
    let mut sampler = Sampler::new(5);
    let sc = Material::scatter(&palette, 2, &r_in, &rec, &mut sampler);
    assert_eq!(sc.scattered.direction, vec3(S, S, 0));
    assert_eq!(sc.attenuation, vec3(S, S / 2, S / 4));
    assert_eq!(Material::emit(&palette, 2, &rec), vec3(S / 8, S / 8, S / 8));
}

#[test]
fn plain_materials_emit_black() {
    let palette = vec![Material::lambertian(Vec3::one()), Material::metal(Vec3::one(), 0)];
    assert_eq!(Material::emit(&palette, 0, &head_on_hit()), Vec3::zero());
    assert_eq!(Material::emit(&palette, 1, &head_on_hit()), Vec3::zero());
}
