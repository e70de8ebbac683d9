//! Force generators and the registry on concrete values.

use kinetics::particle::Particle;
use kinetics::pfgen::{
    ParticleAnchoredSpring, ParticleBungee, ParticleDrag, ParticleForceGenerator,
    ParticleForceRegistry, ParticleGravity, ParticleSpring,
};
use kinetics::precision::{Real, SCALE};
use kinetics::vec3::Vec3;

fn r(x: f32) -> Real {
    Real::from_raw((x * SCALE as f32) as i64)
}

fn v(x: f32, y: f32, z: f32) -> Vec3 {
    Vec3::new(r(x), r(y), r(z))
}

fn movable_at(x: f32, y: f32, z: f32, mass: f32) -> Particle {
    let mut p = Particle::new();
    p.position = v(x, y, z);
    p.set_mass(r(mass));
    p
}

#[test]
fn gravity_scales_by_mass() {
    let gravity = ParticleGravity::new(v(0.0, -10.0, 0.0));
    let mut p = movable_at(0.0, 0.0, 0.0, 2.0);
    gravity.update_force(&mut p, r(0.016));
    assert_eq!(p.force_accum.x.raw(), 0);
    assert_eq!(p.force_accum.y.raw(), -20_000_000);
    assert_eq!(p.force_accum.z.raw(), 0);
}

#[test]
fn gravity_skips_an_immovable_particle() {
    let gravity = ParticleGravity::new(v(0.0, -10.0, 0.0));
    let mut p = Particle::new();
    gravity.update_force(&mut p, r(0.016));
    assert_eq!(p.force_accum.y.raw(), 0);
}

#[test]
fn drag_opposes_motion() {
    let drag = ParticleDrag::new(r(1.0), r(0.5));
    let mut p = movable_at(0.0, 0.0, 0.0, 1.0);
    p.velocity = v(2.0, 0.0, 0.0);
    drag.update_force(&mut p, r(0.016));
    // speed 2: coefficient 1*2 + 0.5*4 = 4, against +x.
    assert_eq!(p.force_accum.x.raw(), -4_000_000);
    assert_eq!(p.force_accum.y.raw(), 0);
}

#[test]
fn drag_skips_a_resting_particle() {
    let drag = ParticleDrag::new(r(1.0), r(0.5));
    let mut p = movable_at(1.0, 2.0, 3.0, 1.0);
    drag.update_force(&mut p, r(0.016));
    assert_eq!(p.force_accum.x.raw(), 0);
}

#[test]
fn spring_pulls_stretched_ends_together() {
    // Separation 2 along x, rest length 1, spring constant 5: the force
    // magnitude is 5 * (2 - 1) = 5, toward the other end.
    let spring = ParticleSpring::new(1, r(5.0), r(1.0));
    let mut p = movable_at(2.0, 0.0, 0.0, 1.0);
    spring.update_force(&mut p, v(0.0, 0.0, 0.0), r(0.016));
    assert_eq!(p.force_accum.x.raw(), -5_000_000);
    assert_eq!(p.force_accum.y.raw(), 0);
    assert_eq!(p.force_accum.z.raw(), 0);
}

#[test]
fn spring_skips_coincident_ends() {
    let spring = ParticleSpring::new(1, r(5.0), r(1.0));
    let mut p = movable_at(0.5, 0.5, 0.5, 1.0);
    spring.update_force(&mut p, v(0.5, 0.5, 0.5), r(0.016));
    assert_eq!(p.force_accum.x.raw(), 0);
}

#[test]
fn anchored_spring_pushes_back_toward_rest_length() {
    // Stretched to 2 with rest length 1: k * (rest - |d|) = 5 * (1 - 2) = -5
    // along the outward direction, i.e. back toward the anchor.
    let spring = ParticleAnchoredSpring::new(v(0.0, 0.0, 0.0), r(5.0), r(1.0));
    let mut p = movable_at(0.0, 2.0, 0.0, 1.0);
    spring.update_force(&mut p, r(0.016));
    assert_eq!(p.force_accum.y.raw(), -5_000_000);
}

#[test]
fn bungee_is_slack_under_its_rest_length() {
    let bungee = ParticleBungee::new(1, r(5.0), r(1.0));
    let mut p = movable_at(0.5, 0.0, 0.0, 1.0);
    bungee.update_force(&mut p, v(0.0, 0.0, 0.0), r(0.016));
    assert_eq!(p.force_accum.x.raw(), 0);
    assert_eq!(p.force_accum.y.raw(), 0);
    assert_eq!(p.force_accum.z.raw(), 0);
}

#[test]
fn bungee_stretched_matches_the_spring_force() {
    let bungee = ParticleBungee::new(1, r(5.0), r(1.0));
    let spring = ParticleSpring::new(1, r(5.0), r(1.0));
    let mut a = movable_at(2.0, 0.0, 0.0, 1.0);
    let mut b = movable_at(2.0, 0.0, 0.0, 1.0);
    bungee.update_force(&mut a, v(0.0, 0.0, 0.0), r(0.016));
    spring.update_force(&mut b, v(0.0, 0.0, 0.0), r(0.016));
    assert_eq!(a.force_accum.x.raw(), b.force_accum.x.raw());
    assert_eq!(a.force_accum.x.raw(), -5_000_000);
}

#[test]
fn registry_applies_generators_to_their_particles_in_order() {
    let mut particles = vec![movable_at(2.0, 0.0, 0.0, 2.0), movable_at(0.0, 0.0, 0.0, 1.0)];
    let mut registry = ParticleForceRegistry::new();
    registry.add(
        0,
        ParticleForceGenerator::Gravity(ParticleGravity::new(v(0.0, -10.0, 0.0))),
    );
    registry.add(0, ParticleForceGenerator::Spring(ParticleSpring::new(1, r(5.0), r(1.0))));
    registry.add(1, ParticleForceGenerator::Spring(ParticleSpring::new(0, r(5.0), r(1.0))));
    registry.update_forces(&mut particles, r(0.016));
    // Particle 0: gravity (0,-20,0) plus spring (-5,0,0).
    assert_eq!(particles[0].force_accum.x.raw(), -5_000_000);
    assert_eq!(particles[0].force_accum.y.raw(), -20_000_000);
    // Particle 1: the opposite spring end is pulled toward particle 0.
    assert_eq!(particles[1].force_accum.x.raw(), 5_000_000);
    // The accumulation phase touched nothing but accumulators.
    assert_eq!(particles[0].position.x.raw(), 2_000_000);
    assert_eq!(particles[1].velocity.x.raw(), 0);
}

#[test]
fn registry_remove_drops_only_the_named_pair() {
    let gravity = ParticleForceGenerator::Gravity(ParticleGravity::new(v(0.0, -10.0, 0.0)));
    let drag = ParticleForceGenerator::Drag(ParticleDrag::new(r(1.0), r(0.5)));
    let mut registry = ParticleForceRegistry::new();
    registry.add(0, gravity);
    registry.add(1, gravity);
    registry.add(0, drag);
    registry.remove(0, &gravity);
    assert_eq!(registry.registrations.len(), 2);
    assert_eq!(registry.registrations[0].particle, 1);
    assert_eq!(registry.registrations[1].particle, 0);
    assert!(registry.registrations[1].force_generator == drag);
}

#[test]
fn registry_remove_drops_every_matching_duplicate() {
    let gravity = ParticleForceGenerator::Gravity(ParticleGravity::new(v(0.0, -10.0, 0.0)));
    let mut registry = ParticleForceRegistry::new();
    registry.add(3, gravity);
    registry.add(3, gravity);
    registry.add(4, gravity);
    registry.remove(3, &gravity);
    assert_eq!(registry.registrations.len(), 1);
    assert_eq!(registry.registrations[0].particle, 4);
}

#[test]
fn registry_clear_removes_everything() {
    let mut registry = ParticleForceRegistry::new();
    registry.add(0, ParticleForceGenerator::Drag(ParticleDrag::new(r(1.0), r(0.5))));
    registry.clear();
    assert_eq!(registry.registrations.len(), 0);
}
