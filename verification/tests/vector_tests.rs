//! Scalar and vector arithmetic on concrete values.

use kinetics::math::MathError;
use kinetics::precision::{Real, SCALE};
use kinetics::vec2::Vec2;
use kinetics::vec3::{make_orthonormal_basis, Vec3};

fn r(x: f32) -> Real {
    Real::from_raw((x * SCALE as f32) as i64)
}

fn v(x: f32, y: f32, z: f32) -> Vec3 {
    Vec3::new(r(x), r(y), r(z))
}

#[test]
fn real_add_sub_neg_are_exact() {
    assert_eq!(r(1.5).add(r(2.25)).raw(), 3_750_000);
    assert_eq!(r(1.5).sub(r(2.0)).raw(), -500_000);
    assert_eq!(r(-2.5).neg().raw(), 2_500_000);
}

#[test]
fn real_mul_truncates_toward_zero() {
    assert_eq!(r(2.0).mul(r(10.0)).raw(), 20_000_000);
    // -3 raw units times one half truncates toward zero: -1 raw unit.
    let a = Real::from_raw(-3);
    assert_eq!(a.mul(r(0.5)).raw(), -1);
    let b = Real::from_raw(3);
    assert_eq!(b.mul(r(-0.5)).raw(), -1);
}

#[test]
fn real_div_is_exact_on_even_quotients() {
    assert_eq!(r(1.0).div(r(2.0)).raw(), 500_000);
    assert_eq!(r(-1.0).div(r(2.0)).raw(), -500_000);
    assert_eq!(r(35.0).div(r(5.0)).raw(), 7_000_000);
}

#[test]
fn real_sqrt_matches_perfect_squares() {
    assert_eq!(r(4.0).sqrt().raw(), 2_000_000);
    assert_eq!(r(0.25).sqrt().raw(), 500_000);
    assert_eq!(r(0.0).sqrt().raw(), 0);
}

#[test]
fn real_pow_on_exact_points() {
    // Anything in [0, 1] to the zeroth power is one.
    assert_eq!(r(0.99).pow(r(0.0)).raw(), SCALE);
    // One to any power stays one.
    assert_eq!(r(1.0).pow(r(7.5)).raw(), SCALE);
    // Exponent one hands the base back.
    assert_eq!(r(0.99).pow(r(1.0)).raw(), 990_000);
    // A quarter to the power one half is exactly one half.
    assert_eq!(r(0.25).pow(r(0.5)).raw(), 500_000);
    // Squaring by an integer exponent.
    assert_eq!(r(0.5).pow(r(2.0)).raw(), 250_000);
    // A larger whole exponent keeps multiplying exactly.
    assert_eq!(r(0.5).pow(r(3.0)).raw(), 125_000);
    // Zero to a positive power is zero.
    assert_eq!(r(0.0).pow(r(2.5)).raw(), 0);
}

#[test]
fn real_pow_tracks_the_float_result() {
    let got = r(0.99).pow(r(1.0 / 60.0)).raw() as f32 / SCALE as f32;
    let expected = 0.99f32.powf(1.0 / 60.0);
    assert!((got - expected).abs() < 1e-3, "got {got}, expected {expected}");
}

#[test]
fn vec3_componentwise_ops() {
    let a = v(1.0, 2.0, 3.0);
    let b = v(0.5, -1.0, 2.0);
    let s = a.add(b);
    assert_eq!((s.x.raw(), s.y.raw(), s.z.raw()), (1_500_000, 1_000_000, 5_000_000));
    let d = a.sub(b);
    assert_eq!((d.x.raw(), d.y.raw(), d.z.raw()), (500_000, 3_000_000, 1_000_000));
    let sc = a.scale(r(2.0));
    assert_eq!((sc.x.raw(), sc.y.raw(), sc.z.raw()), (2_000_000, 4_000_000, 6_000_000));
    let cp = a.component_product(b);
    assert_eq!((cp.x.raw(), cp.y.raw(), cp.z.raw()), (500_000, -2_000_000, 6_000_000));
    assert_eq!(a.dot(b).raw(), 4_500_000);
}

#[test]
fn vec3_magnitude_and_in_place_updates() {
    let a = v(3.0, 4.0, 0.0);
    assert_eq!(a.magnitude_squared().raw(), 25_000_000);
    assert_eq!(a.magnitude().raw(), 5_000_000);
    let mut b = a;
    b.invert();
    assert_eq!((b.x.raw(), b.y.raw()), (-3_000_000, -4_000_000));
    b.clear();
    assert_eq!((b.x.raw(), b.y.raw(), b.z.raw()), (0, 0, 0));
    let mut c = v(1.0, 0.0, 0.0);
    c.add_scaled(v(0.0, 2.0, 0.0), r(3.0));
    assert_eq!((c.x.raw(), c.y.raw(), c.z.raw()), (1_000_000, 6_000_000, 0));
}

#[test]
fn normalized_has_unit_magnitude_within_tolerance() {
    for (x, y, z) in [(3.0, 4.0, 0.0), (1.0, 1.0, 1.0), (-2.0, 0.5, 7.25), (0.0, 0.0, 0.001)] {
        let n = v(x, y, z).normalized();
        let mag = n.magnitude().raw() as f32 / SCALE as f32;
        assert!((mag - 1.0).abs() < 1e-2, "|normalized({x},{y},{z})| = {mag}");
    }
}

#[test]
fn normalized_of_a_degenerate_vector_is_zero() {
    // A squared magnitude at or below the scalar's resolution normalizes to
    // the zero vector instead of propagating a degenerate scale.
    let tiny = Vec3::new(Real::from_raw(1), Real::from_raw(0), Real::from_raw(0));
    let n = tiny.normalized();
    assert_eq!((n.x.raw(), n.y.raw(), n.z.raw()), (0, 0, 0));
    let zero = v(0.0, 0.0, 0.0).normalized();
    assert_eq!((zero.x.raw(), zero.y.raw(), zero.z.raw()), (0, 0, 0));
}

#[test]
fn normalize_matches_normalized() {
    let a = v(0.0, 3.0, 4.0);
    let mut b = a;
    b.normalize();
    let n = a.normalized();
    assert_eq!((b.x.raw(), b.y.raw(), b.z.raw()), (n.x.raw(), n.y.raw(), n.z.raw()));
}

#[test]
fn cross_product_of_axes() {
    let x = v(1.0, 0.0, 0.0);
    let y = v(0.0, 1.0, 0.0);
    let z = x.cross(y);
    assert_eq!((z.x.raw(), z.y.raw(), z.z.raw()), (0, 0, 1_000_000));
}

#[test]
fn orthonormal_basis_from_perpendicular_vectors() {
    let a = v(2.0, 0.0, 0.0);
    let b = v(0.0, 1.0, 0.0);
    let (x, y, z) = make_orthonormal_basis(&a, &b).unwrap();
    assert_eq!((x.x.raw(), x.y.raw(), x.z.raw()), (1_000_000, 0, 0));
    assert_eq!((y.x.raw(), y.y.raw(), y.z.raw()), (0, 1_000_000, 0));
    assert_eq!((z.x.raw(), z.y.raw(), z.z.raw()), (0, 0, 1_000_000));
}

#[test]
fn orthonormal_basis_fails_on_parallel_vectors() {
    let a = v(1.0, 2.0, 0.0);
    let b = v(2.0, 4.0, 0.0);
    match make_orthonormal_basis(&a, &b) {
        Err(MathError::OrthonormalBasisError) => {}
        Ok(_) => panic!("parallel vectors must not give a basis"),
    }
}

#[test]
fn vec2_mirrors_the_3d_operations() {
    let a = Vec2::new(r(3.0), r(4.0));
    assert_eq!(a.magnitude_squared().raw(), 25_000_000);
    assert_eq!(a.magnitude().raw(), 5_000_000);
    assert_eq!(a.dot(Vec2::new(r(1.0), r(0.5))).raw(), 5_000_000);
    let n = a.normalized();
    let mag = ((n.x.raw() as f32).powi(2) + (n.y.raw() as f32).powi(2)).sqrt() / SCALE as f32;
    assert!((mag - 1.0).abs() < 1e-2);
    let mut b = a;
    b.add_scaled(Vec2::new(r(1.0), r(1.0)), r(0.5));
    assert_eq!((b.x.raw(), b.y.raw()), (3_500_000, 4_500_000));
}
