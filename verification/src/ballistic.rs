//! The ballistic demo's state: one round that is fired with a fixed initial
//! state and advanced frame by frame. Drawing the round belongs to the
//! application shell, not to this core.

use crate::particle::{integrate_fits, integrate_spec, Particle, ParticleModel};
use crate::precision::Real;
use crate::vec3::{v3_zero, Vec3, V3};
use vstd::prelude::*;

verus! {

/// The kinds of round the demo knows; it fires pistol rounds.
#[derive(Clone, Copy, Debug, PartialEq, Eq, Structural)]
pub enum ShotType {
    UNUSED,
    PISTOL,
    ARTILLERY,
    LASER,
}

/// One round: its particle, its kind, and when it was fired.
#[derive(Debug)]
pub struct AmmoRound {
    /// The simulated particle of the round.
    pub particle: Particle,
    /// What kind of round this is.
    pub shot_type: ShotType,
    /// When the round was fired; `None` while it is idle.
    pub start_time: Option<std::time::Instant>,
}

impl AmmoRound {
    /// An idle pistol round with a zeroed particle and no firing time.
    pub fn new() -> (r: AmmoRound)
        ensures
            r.particle@.position == v3_zero(),
            r.particle@.velocity == v3_zero(),
            r.particle@.acceleration == v3_zero(),
            r.particle@.damping == 0,
            r.particle@.inverse_mass == 0,
            r.particle@.force_accum == v3_zero(),
            r.shot_type == ShotType::PISTOL,
            r.start_time is None,
    {
        AmmoRound { particle: Particle::new(), shot_type: ShotType::PISTOL, start_time: None }
    }
}

/// The demo: one round, fired and then integrated each frame.
#[derive(Debug)]
pub struct BallisticApp {
    /// The round in flight (or waiting to be fired).
    pub shot: AmmoRound,
}

impl BallisticApp {
    /// A demo holding one idle round.
    pub fn new() -> (r: BallisticApp)
        ensures
            r.shot.particle@.position == v3_zero(),
            r.shot.particle@.inverse_mass == 0,
            r.shot.shot_type == ShotType::PISTOL,
            r.shot.start_time is None,
    {
        BallisticApp { shot: AmmoRound::new() }
    }

    /// Fire the round as a pistol shot: position `(0, 1.5, 0)`, velocity
    /// `(0, 0, 35)`, acceleration `(0, -1, 0)`, damping `0.99`, mass `2`,
    /// an empty accumulator, and the present instant as firing time.
    pub fn fire(&mut self)
        ensures
            final(self).shot.particle@.position == (V3 { x: 0, y: 1_500_000, z: 0 }),
            final(self).shot.particle@.velocity == (V3 { x: 0, y: 0, z: 35_000_000 }),
            final(self).shot.particle@.acceleration == (V3 { x: 0, y: -1_000_000, z: 0 }),
            final(self).shot.particle@.damping == 990_000,
            final(self).shot.particle@.inverse_mass == 500_000,
            final(self).shot.particle@.force_accum == v3_zero(),
            final(self).shot.shot_type == ShotType::PISTOL,
            final(self).shot.start_time is Some,
    {
        self.shot.particle.position = Vec3::new(
            Real::from_raw(0),
            Real::from_raw(1_500_000),
            Real::from_raw(0),
        );
        self.shot.particle.set_mass(Real::from_raw(2_000_000));
        proof {
            assert(1_000_000_000_000int / 2_000_000 == 500_000);
        }
        self.shot.particle.velocity = Vec3::new(
            Real::from_raw(0),
            Real::from_raw(0),
            Real::from_raw(35_000_000),
        );
        self.shot.particle.acceleration = Vec3::new(
            Real::from_raw(0),
            Real::from_raw(-1_000_000),
            Real::from_raw(0),
        );
        self.shot.particle.damping = Real::from_raw(990_000);
        self.shot.start_time = Some(std::time::Instant::now());
        self.shot.shot_type = ShotType::PISTOL;
        self.shot.particle.clear_accumulator();
    }

    /// Advance the round by one frame of length `dt`.
    pub fn update(&mut self, dt: Real)
        requires
            dt@ > 0,
            integrate_fits(old(self).shot.particle@, dt@),
        ensures
            final(self).shot.particle@ == integrate_spec(old(self).shot.particle@, dt@),
    {
        self.shot.particle.integrate(dt);
    }
}

} // verus!
