//! The random sampler: seeding, ranges, and rejection sampling.

use raytrace::rng::Sampler;

const S: i64 = 65536;

#[test]
fn draws_stay_below_their_bound() {
    let mut sampler = Sampler::new(1234);
    for _ in 0..1000 {
        let r = sampler.next_below(7);
        assert!(r < 7);
    }
    for _ in 0..100 {
        assert!(sampler.next_below(1) == 0);
    }
}

#[test]
fn unit_draws_stay_in_range() {
    let mut sampler = Sampler::new(99);
    for _ in 0..1000 {
        let u = sampler.next_unit();
        assert!(0 <= u && u < S);
        let v = sampler.next_symmetric();
        assert!(-S <= v && v <= S);
    }
}

#[test]
fn same_seed_gives_the_same_sequence() {
    let mut a = Sampler::new(2024);
    let mut b = Sampler::new(2024);
    for _ in 0..100 {
        assert_eq!(a.next_below(1_000_000), b.next_below(1_000_000));
    }
}

#[test]
fn different_draws_occur() {
    let mut sampler = Sampler::new(5);
    let first = sampler.next_below(1_000_000);
    let mut saw_other = false;
    for _ in 0..100 {
        if sampler.next_below(1_000_000) != first {
            saw_other = true;
        }
    }
    assert!(saw_other);
}

#[test]
fn unit_sphere_points_are_inside_the_ball() {
    let mut sampler = Sampler::new(31);
    for _ in 0..500 {
        let p = sampler.random_in_unit_sphere();
        let m = p.x * p.x + p.y * p.y + p.z * p.z;
        assert!(m < S * S);
    }
}

#[test]
fn unit_disk_points_are_inside_and_flat() {
    let mut sampler = Sampler::new(32);
    for _ in 0..500 {
        let p = sampler.random_in_unit_disk();
        assert_eq!(p.z, 0);
        assert!(p.x * p.x + p.y * p.y < S * S);
    }
}
