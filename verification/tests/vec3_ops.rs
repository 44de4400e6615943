//! Vector arithmetic at the 16.16 fixed-point scale.

use raytrace::vec3::{vec3, Vec3};

const S: i64 = 65536;

#[test]
fn construction_and_all() {
    let v = Vec3::new(1, 2, 3);
    assert_eq!(v.x, 1);
    assert_eq!(v.y, 2);
    assert_eq!(v.z, 3);
    let a = Vec3::all(7);
    assert_eq!(a, Vec3::new(7, 7, 7));
    assert_eq!(Vec3::zero(), Vec3::new(0, 0, 0));
    assert_eq!(Vec3::one(), Vec3::new(S, S, S));
    assert_eq!(vec3(4, 5, 6), Vec3::new(4, 5, 6));
}

#[test]
fn add_sub_neg() {
    let a = vec3(S, 2 * S, -3 * S);
    let b = vec3(S, -S, S);
    assert_eq!(a.add(b), vec3(2 * S, S, -2 * S));
    assert_eq!(a.sub(b), vec3(0, 3 * S, -4 * S));
    assert_eq!(a.neg(), vec3(-S, -2 * S, 3 * S));
}

#[test]
fn add_saturates_instead_of_wrapping() {
    let a = vec3(i64::MAX, 0, 0);
    let b = vec3(1, 0, 0);
    assert_eq!(a.add(b).x, i64::MAX);
    let c = vec3(i64::MIN, 0, 0);
    assert_eq!(c.sub(b).x, i64::MIN);
}

#[test]
fn fixed_point_products() {
    // 0.5 * 0.5 == 0.25
    let h = vec3(S / 2, S / 2, S / 2);
    assert_eq!(h.mul(h), vec3(S / 4, S / 4, S / 4));
    // scaling by 2.0 doubles
    assert_eq!(h.scale(2 * S), vec3(S, S, S));
    // division: 1.0 / 0.5 == 2.0
    assert_eq!(Vec3::one().div(h), vec3(2 * S, 2 * S, 2 * S));
    assert_eq!(Vec3::one().div_scalar(S / 2), vec3(2 * S, 2 * S, 2 * S));
}

#[test]
fn dot_and_mag() {
    let a = vec3(3 * S, 4 * S, 0);
    // dot carries twice the scale
    assert_eq!(a.dot(a), 25i128 * (S as i128) * (S as i128));
    assert_eq!(a.mag_sq(), 25i128 * (S as i128) * (S as i128));
    assert_eq!(a.mag(), 5 * S);
}

#[test]
fn cross_exact_values() {
    let x = vec3(S, 0, 0);
    let y = vec3(0, S, 0);
    let z = vec3(0, 0, S);
    assert_eq!(x.cross(y), z);
    assert_eq!(y.cross(z), x);
    assert_eq!(z.cross(x), y);
    assert_eq!(y.cross(x), z.neg());
}

#[test]
fn cross_of_vector_with_itself_is_zero() {
    let a = vec3(12345, -9876, 31415);
    assert_eq!(a.cross(a), Vec3::zero());
}

#[test]
fn cross_is_orthogonal_to_arguments() {
    // dot(a, cross(a, b)) vanishes exactly for axis-aligned inputs
    let a = vec3(2 * S, 0, 0);
    let b = vec3(0, 3 * S, 0);
    let c = a.cross(b);
    assert_eq!(a.dot(c), 0);
    assert_eq!(b.dot(c), 0);
}

#[test]
fn dot_is_bilinear_on_concrete_vectors() {
    // dot(2a + 3b, c) == 2 dot(a,c) + 3 dot(b,c), exactly, since the
    // executable dot product is exact
    let a = vec3(5, -7, 11);
    let b = vec3(-2, 9, 4);
    let c = vec3(3, 3, -6);
    let lhs = a.scale(2 * S).add(b.scale(3 * S)).dot(c);
    let rhs = 2 * a.dot(c) + 3 * b.dot(c);
    assert_eq!(lhs, rhs);
}

#[test]
fn normalize_exact_axis() {
    let v = vec3(20 * S, 0, 0);
    assert_eq!(v.normalize(), vec3(S, 0, 0));
}

#[test]
fn normalize_has_unit_length_within_tolerance() {
    let cases = [
        vec3(3 * S, 4 * S, 0),
        vec3(S, S, S),
        vec3(-7 * S, 2 * S, 5 * S),
        vec3(S, 0, 0),
        vec3(123456, -654321, 777777),
    ];
    let unit_sq = (S as i128) * (S as i128);
    for v in cases {
        let n = v.normalize();
        let d = n.mag_sq() - unit_sq;
        assert!(d.abs() <= 16 * S as i128, "off by {d}");
    }
}

#[test]
fn reflect_exact_mirror() {
    // reflecting (1, -1, 0) about the y axis gives (1, 1, 0)
    let d = vec3(S, -S, 0);
    let n = vec3(0, S, 0);
    let r = d.reflect(n);
    assert_eq!(r, vec3(S, S, 0));
    // the mirror law: the angle with the normal is preserved
    assert_eq!(r.dot(n), -(d.dot(n)));
    assert_eq!(r.mag_sq(), d.mag_sq());
}

#[test]
fn within_bounds_check() {
    let v = vec3(5, -5, 0);
    assert!(v.within(5));
    assert!(!v.within(4));
}
