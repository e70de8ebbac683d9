//! The particle's mass handling and integration step on concrete values.

use kinetics::precision::{Real, SCALE};
use kinetics::particle::Particle;
use kinetics::vec3::Vec3;

fn r(x: f32) -> Real {
    Real::from_raw((x * SCALE as f32) as i64)
}

fn v(x: f32, y: f32, z: f32) -> Vec3 {
    Vec3::new(r(x), r(y), r(z))
}

#[test]
fn new_particle_is_zeroed_and_immovable() {
    let p = Particle::new();
    assert_eq!(p.position.x.raw(), 0);
    assert_eq!(p.velocity.z.raw(), 0);
    assert_eq!(p.inverse_mass.raw(), 0);
    assert!(!p.has_finite_mass());
}

#[test]
fn set_mass_stores_the_reciprocal() {
    let mut p = Particle::new();
    p.set_mass(r(2.0));
    assert_eq!(p.inverse_mass.raw(), 500_000);
    assert!(p.has_finite_mass());
    assert_eq!(p.mass().raw(), 2_000_000);
}

#[test]
fn mass_roundtrip_after_set_mass() {
    // Exact when the mass divides the square of the scale evenly.
    let mut p = Particle::new();
    p.set_mass(r(2.0));
    assert_eq!(p.mass().raw(), 2_000_000);
    // Otherwise reading the mass back never understates it.
    let mut q = Particle::new();
    q.set_mass(r(3.0));
    assert_eq!(q.mass().raw(), 3_000_003);
    assert!(q.mass().raw() >= 3_000_000);
    // Near the upper bound of set_mass the particle stays movable.
    let mut h = Particle::new();
    h.set_mass(Real::from_raw(999_999_000_000));
    assert!(h.has_finite_mass());
    assert_eq!(h.inverse_mass.raw(), 1);
    assert!(h.mass().raw() >= 999_999_000_000);
}

#[test]
fn is_moderate_reflects_the_state_bounds() {
    let mut p = Particle::new();
    p.set_mass(r(2.0));
    p.damping = r(0.99);
    p.velocity = v(0.0, 0.0, 35.0);
    assert!(p.is_moderate());
    p.position = Vec3::new(Real::from_raw(2_000_000_000), Real::from_raw(0), Real::from_raw(0));
    assert!(!p.is_moderate());
}

#[test]
fn mass_of_an_immovable_particle_is_the_sentinel() {
    let p = Particle::new();
    assert_eq!(p.mass().raw(), i64::MAX);
}

#[test]
fn add_force_accumulates_additively() {
    let mut p = Particle::new();
    p.add_force(&v(1.0, 0.0, 0.0));
    p.add_force(&v(0.5, 2.0, 0.0));
    assert_eq!(p.force_accum.x.raw(), 1_500_000);
    assert_eq!(p.force_accum.y.raw(), 2_000_000);
    p.clear_accumulator();
    assert_eq!(p.force_accum.x.raw(), 0);
}

#[test]
fn integrate_leaves_an_immovable_particle_in_place() {
    let mut p = Particle::new();
    p.position = v(1.0, 2.0, 3.0);
    p.velocity = v(4.0, 5.0, 6.0);
    p.damping = r(0.99);
    p.add_force(&v(100.0, 0.0, 0.0));
    p.integrate(r(0.5));
    assert_eq!(p.position.x.raw(), 1_000_000);
    assert_eq!(p.position.y.raw(), 2_000_000);
    assert_eq!(p.velocity.x.raw(), 4_000_000);
    assert_eq!(p.velocity.z.raw(), 6_000_000);
}

#[test]
fn integrate_clears_the_accumulator() {
    let mut p = Particle::new();
    p.set_mass(r(1.0));
    p.damping = r(1.0);
    p.add_force(&v(3.0, -2.0, 0.5));
    p.add_force(&v(1.0, 1.0, 1.0));
    p.integrate(r(0.25));
    assert_eq!(p.force_accum.x.raw(), 0);
    assert_eq!(p.force_accum.y.raw(), 0);
    assert_eq!(p.force_accum.z.raw(), 0);
}

#[test]
fn integrate_moves_position_by_the_previous_velocity() {
    // Semi-implicit Euler: position uses the velocity from before the step.
    let mut p = Particle::new();
    p.set_mass(r(1.0));
    p.damping = r(1.0);
    p.velocity = v(2.0, 0.0, 0.0);
    p.acceleration = v(0.0, -10.0, 0.0);
    p.integrate(r(0.5));
    // position += old velocity * 0.5, unaffected by the new acceleration
    assert_eq!(p.position.x.raw(), 1_000_000);
    assert_eq!(p.position.y.raw(), 0);
    // velocity += acceleration * 0.5, no damping at 1.0
    assert_eq!(p.velocity.y.raw(), -5_000_000);
    assert_eq!(p.velocity.x.raw(), 2_000_000);
}

#[test]
fn integrate_applies_forces_through_the_inverse_mass() {
    let mut p = Particle::new();
    p.set_mass(r(2.0));
    p.damping = r(1.0);
    p.add_force(&v(4.0, 0.0, 0.0));
    p.integrate(r(1.0));
    // a = F / m = 2, one second: velocity picks up 2.
    assert_eq!(p.velocity.x.raw(), 2_000_000);
}

#[test]
fn damping_is_frame_rate_independent_within_tolerance() {
    // One step of T and two steps of T/2 shave velocity by the same factor
    // (damping^T) up to fixed-point truncation.
    let mut once = Particle::new();
    once.set_mass(r(1.0));
    once.damping = r(0.9);
    once.velocity = v(0.0, 0.0, 10.0);
    once.integrate(r(0.5));

    let mut twice = Particle::new();
    twice.set_mass(r(1.0));
    twice.damping = r(0.9);
    twice.velocity = v(0.0, 0.0, 10.0);
    twice.integrate(r(0.25));
    twice.integrate(r(0.25));

    let a = once.velocity.z.raw() as f32 / SCALE as f32;
    let b = twice.velocity.z.raw() as f32 / SCALE as f32;
    let expected = 10.0 * 0.9f32.powf(0.5);
    assert!((a - expected).abs() < 0.01, "one step: {a} vs {expected}");
    assert!((a - b).abs() < 0.01, "split step drifted: {a} vs {b}");
}
