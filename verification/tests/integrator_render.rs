//! The light-transport loop and the sampling driver.

use raytrace::camera::Camera;
use raytrace::integrator::{color, trace};
use raytrace::material::Material;
use raytrace::model::Model;
use raytrace::ray::Ray;
use raytrace::render::{render, render_pixel, resolve_channel, RenderConfig};
use raytrace::rng::Sampler;
use raytrace::vec3::{vec3, Vec3};

const S: i64 = 65536;

#[test]
fn escaping_ray_is_black() {
    let world = Model::list(vec![]);
    let palette: Vec<Material> = vec![];
    let ray = Ray::new(Vec3::zero(), vec3(0, 0, -S));
    let mut sampler = Sampler::new(1);
    let (c, tests) = trace(ray, &world, &palette, 50, &mut sampler);
    assert_eq!(c, Vec3::zero());
    assert_eq!(tests, 1);
}

#[test]
fn first_hit_on_a_light_returns_its_emittance_exactly() {
    let palette = vec![Material::diffuse_light(Vec3::one())];
    let world = Model::sphere(vec3(0, 0, -3 * S), S, 0);
    let ray = Ray::new(Vec3::zero(), vec3(0, 0, -S));
    let mut sampler = Sampler::new(1);
    let c = color(ray, &world, &palette, 50, &mut sampler);
    assert_eq!(c, Vec3::one());
}

#[test]
fn zero_bounce_budget_yields_black_on_a_hit() {
    // at the depth cap nothing has been accumulated: a first hit with a
    // zero bounce budget returns black after exactly one test
    let palette = vec![Material::lambertian(Vec3::all(S / 2))];
    let world = Model::sphere(vec3(0, 0, -3 * S), S, 0);
    let ray = Ray::new(Vec3::zero(), vec3(0, 0, -S));
    let mut sampler = Sampler::new(4);
    let (c, tests) = trace(ray, &world, &palette, 0, &mut sampler);
    assert_eq!(c, Vec3::zero());
    assert_eq!(tests, 1);
}

#[test]
fn escaping_mirror_bounce_keeps_accumulated_emission() {
    // one deterministic fuzz-free mirror bounce off a combined
    // metal-and-light sphere, then escape: the result is the throughput
    // (the metal's albedo) times the sum of the background (black) and
    // the emission accumulated at the bounce
    let palette = vec![
        Material::metal(Vec3::all(S / 2), 0),
        Material::diffuse_light(Vec3::one()),
        Material::Combined { scatterer: 0, emitter: 1 },
    ];
    let world = Model::sphere(vec3(0, 0, -3 * S), S, 2);
    let mut sampler = Sampler::new(17);
    for _ in 0..8 {
        let ray = Ray::new(Vec3::zero(), vec3(0, 0, -S));
        let c = color(ray, &world, &palette, 50, &mut sampler);
        assert_eq!(c, Vec3::all(S / 2));
    }
}

#[test]
fn bounce_budget_caps_intersection_tests() {
    // a diffuse enclosure: the ray starts inside a large sphere, so
    // every bounce hits again; the trace must still perform at most
    // max_depth + 1 intersection tests
    let palette = vec![Material::lambertian(Vec3::all(S / 2))];
    let world = Model::sphere(Vec3::zero(), 100 * S, 0);
    let mut sampler = Sampler::new(11);
    for depth in [0u32, 1, 5, 50] {
        let ray = Ray::new(Vec3::zero(), vec3(0, 0, -S));
        let (_, tests) = trace(ray, &world, &palette, depth, &mut sampler);
        assert!(tests <= depth + 1, "depth {depth}: {tests} tests");
        assert!(tests >= 1);
    }
}

#[test]
fn mirror_enclosure_stays_within_the_budget() {
    // metal walls all around: backward fuzz-free reflections terminate
    // as absorbed, and the test count still respects the cap
    let palette = vec![Material::metal(Vec3::one(), 0)];
    let world = Model::list(vec![
        Model::sphere(vec3(0, 0, -40 * S), 30 * S, 0),
        Model::sphere(vec3(0, 0, 40 * S), 30 * S, 0),
        Model::sphere(vec3(0, -40 * S, 0), 30 * S, 0),
        Model::sphere(vec3(0, 40 * S, 0), 30 * S, 0),
        Model::sphere(vec3(-40 * S, 0, 0), 30 * S, 0),
        Model::sphere(vec3(40 * S, 0, 0), 30 * S, 0),
    ]);
    let mut sampler = Sampler::new(23);
    let ray = Ray::new(Vec3::zero(), vec3(S / 3, S / 5, -S));
    let (_, tests) = trace(ray, &world, &palette, 50, &mut sampler);
    assert!(tests <= 51);
}

#[test]
fn resolve_channel_exact_values() {
    let n = 4u32;
    // average one: full brightness
    assert_eq!(resolve_channel(4 * S as i128, n), 255);
    // average zero: black
    assert_eq!(resolve_channel(0, n), 0);
    // average 0.25: sqrt is 0.5, and floor(255.99 * 0.5) = 127
    assert_eq!(resolve_channel(S as i128, n), 127);
    // negative sums clamp to black
    assert_eq!(resolve_channel(-5 * S as i128, n), 0);
    // averages above one clamp to full brightness
    assert_eq!(resolve_channel(400 * S as i128, n), 255);
}

fn light_scene_camera() -> Camera {
    Camera::new(
        vec3(0, 0, 5 * S),
        Vec3::zero(),
        vec3(0, S, 0),
        6554,  // tan of half the vertical field of view: about 0.1
        S,     // square aspect
        0,     // pinhole: no depth of field
        5 * S, // focus at the sphere
    )
}

#[test]
fn pinhole_camera_is_deterministic() {
    let cam = light_scene_camera();
    let mut s1 = Sampler::new(1);
    let mut s2 = Sampler::new(2);
    let r1 = cam.get_ray(S / 3, S / 7, &mut s1);
    let r2 = cam.get_ray(S / 3, S / 7, &mut s2);
    assert_eq!(r1, r2);
    assert_eq!(r1.origin, vec3(0, 0, 5 * S));
}

#[test]
fn camera_basis_and_corner_are_exact() {
    // camera at the origin looking toward -z, with a square viewport of
    // half-size one at focus distance one
    let cam = Camera::new(Vec3::zero(), vec3(0, 0, -S), vec3(0, S, 0), S, S, 0, S);
    let mut sampler = Sampler::new(1);
    let r = cam.get_ray(0, 0, &mut sampler);
    assert_eq!(r.origin, Vec3::zero());
    assert_eq!(r.direction, vec3(-S, S, -S));
    // the ray toward the viewport center
    let c = cam.get_ray(S / 2, S / 2, &mut sampler);
    assert_eq!(c.direction, vec3(0, 0, -S));
}

#[test]
fn render_of_a_single_light_sphere_saturates_covered_pixels() {
    // a lone emitter of (1, 1, 1), viewed head-on by a pinhole camera
    // whose whole viewport the sphere covers: every sample returns the
    // emittance exactly, so every pixel resolves to full white
    let palette = vec![Material::diffuse_light(Vec3::one())];
    let world = Model::sphere(Vec3::zero(), S, 0);
    let cam = light_scene_camera();
    let cfg = RenderConfig { width: 4, height: 4, samples: 4, max_depth: 8 };
    let mut sampler = Sampler::new(7);
    let buf = render(&cam, &world, &palette, cfg, &mut sampler);
    assert_eq!(buf.len(), 16);
    for p in &buf {
        assert_eq!((p.r, p.g, p.b), (255, 255, 255));
    }
}

#[test]
fn render_pixel_matches_buffer_layout() {
    let palette = vec![Material::diffuse_light(Vec3::one())];
    let world = Model::sphere(Vec3::zero(), S, 0);
    let cam = light_scene_camera();
    let cfg = RenderConfig { width: 3, height: 2, samples: 2, max_depth: 4 };
    let mut sampler = Sampler::new(7);
    let buf = render(&cam, &world, &palette, cfg, &mut sampler);
    assert_eq!(buf.len(), 6);
    let mut sampler2 = Sampler::new(99);
    let p = render_pixel(&cam, &world, &palette, 2, 1, cfg, &mut sampler2);
    // the same scene saturates every pixel, whatever the seed
    assert_eq!(buf[1 * 3 + 2], p);
}
