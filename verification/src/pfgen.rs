//! Force generators and the force registry.
//!
//! A force generator contributes a force to one particle's accumulator each
//! simulation step. Particles live in an arena (a `Vec`) and are addressed
//! by stable index, so a spring can name its far end without sharing mutable
//! references. The closed set of generators is a tagged enum dispatched by
//! `update_force`, as the design calls for.

use crate::particle::{Particle, ParticleModel};
use crate::precision::{in_raw, sdiv, smul, Real, SCALE};
use crate::vec3::{
    add_fits, dot_fits, normalized_fits, scale_fits, sub_fits, v3_add, v3_dot, v3_magnitude,
    v3_normalized, v3_scale, v3_sub, v3_zero, Vec3, V3,
};
use vstd::prelude::*;

verus! {

/// The views of the particles of an arena.
pub open spec fn views(s: Seq<Particle>) -> Seq<ParticleModel> {
    s.map_values(|p: Particle| p@)
}

// --- Gravity ---

/// Applies a constant gravitational acceleration, scaled by the particle's
/// mass, to movable particles.
#[derive(Clone, Copy, Debug, PartialEq, Eq, Structural)]
pub struct ParticleGravity {
    /// The acceleration due to gravity.
    pub gravity: Vec3,
}

impl ParticleGravity {
    /// A gravity generator with the given acceleration.
    pub fn new(gravity: Vec3) -> (r: ParticleGravity)
        ensures
            r.gravity == gravity,
    {
        ParticleGravity { gravity }
    }
}

/// The force gravity contributes: the gravity vector scaled by the mass,
/// and no force at all on an immovable particle.
pub open spec fn gravity_force(gravity: V3, p: ParticleModel) -> V3 {
    if p.inverse_mass > 0 {
        v3_scale(gravity, sdiv(SCALE as int, p.inverse_mass))
    } else {
        v3_zero()
    }
}

/// Whether one gravity update stays representable.
pub open spec fn gravity_update_fits(gravity: V3, p: ParticleModel) -> bool {
    &&& p.inverse_mass >= 0
    &&& (p.inverse_mass > 0 ==> scale_fits(gravity, sdiv(SCALE as int, p.inverse_mass)))
    &&& add_fits(p.force_accum, gravity_force(gravity, p))
}

impl ParticleGravity {
    /// Add `gravity * mass` to the particle's accumulator; an immovable
    /// particle is skipped.
    pub fn update_force(&self, particle: &mut Particle, _duration: Real)
        requires
            gravity_update_fits(self.gravity@, old(particle)@),
        ensures
            final(particle)@ == (ParticleModel {
                force_accum: v3_add(
                    old(particle)@.force_accum,
                    gravity_force(self.gravity@, old(particle)@),
                ),
                ..old(particle)@
            }),
    {
        if !particle.has_finite_mass() {
            return ;
        }
        let m = particle.mass();
        let f = self.gravity.scale(m);
        particle.add_force(&f);
    }
}

// --- Drag ---

/// Applies a drag force with a linear and a quadratic term.
#[derive(Clone, Copy, Debug, PartialEq, Eq, Structural)]
pub struct ParticleDrag {
    /// Coefficient of the term linear in speed.
    pub k1: Real,
    /// Coefficient of the term quadratic in speed.
    pub k2: Real,
}

impl ParticleDrag {
    /// A drag generator with the given coefficients.
    pub fn new(k1: Real, k2: Real) -> (r: ParticleDrag)
        ensures
            r.k1 == k1,
            r.k2 == k2,
    {
        ParticleDrag { k1, k2 }
    }
}

/// The drag force `-v̂ * (k1*|v| + k2*|v|^2)`, and zero at zero speed.
pub open spec fn drag_force(k1: int, k2: int, p: ParticleModel) -> V3 {
    let speed = v3_magnitude(p.velocity);
    if speed <= 0 {
        v3_zero()
    } else {
        let coeff = smul(k1, speed) + smul(k2, smul(speed, speed));
        v3_scale(v3_normalized(p.velocity), -coeff)
    }
}

/// Whether one drag update stays representable.
pub open spec fn drag_update_fits(k1: int, k2: int, p: ParticleModel) -> bool {
    let speed = v3_magnitude(p.velocity);
    let coeff = smul(k1, speed) + smul(k2, smul(speed, speed));
    &&& dot_fits(p.velocity, p.velocity)
    &&& (speed > 0 ==> {
        &&& in_raw(smul(k1, speed))
        &&& in_raw(smul(speed, speed))
        &&& in_raw(smul(k2, smul(speed, speed)))
        &&& in_raw(coeff)
        &&& in_raw(-coeff)
        &&& normalized_fits(p.velocity)
        &&& scale_fits(v3_normalized(p.velocity), -coeff)
        &&& add_fits(p.force_accum, drag_force(k1, k2, p))
    })
}

impl ParticleDrag {
    /// Add the drag force opposing the particle's motion; a particle at rest
    /// is skipped.
    pub fn update_force(&self, particle: &mut Particle, _duration: Real)
        requires
            drag_update_fits(self.k1@, self.k2@, old(particle)@),
        ensures
            final(particle)@ == (ParticleModel {
                force_accum: v3_add(
                    old(particle)@.force_accum,
                    drag_force(self.k1@, self.k2@, old(particle)@),
                ),
                ..old(particle)@
            }),
    {
        let mut force = particle.velocity;
        let speed = force.magnitude();
        if speed.raw <= 0 {
            proof {
                assert(v3_add(old(particle)@.force_accum, v3_zero()) == old(
                    particle,
                )@.force_accum);
            }
            return ;
        }
        let drag_coeff = self.k1.mul(speed).add(self.k2.mul(speed.mul(speed)));
        proof {
            lemma_positive_magnitude_means_positive_mag_sq(particle@.velocity);
        }
        force.normalize();
        let f = force.scale(drag_coeff.neg());
        particle.add_force(&f);
    }
}

/// A vector with a positive magnitude has a positive squared magnitude, so
/// the magnitude guard and the normalization guard agree.
pub proof fn lemma_positive_magnitude_means_positive_mag_sq(v: V3)
    ensures
        v3_magnitude(v) > 0 ==> v3_dot(v, v) > 0,
{
    crate::vec3::lemma_v3_dot_self_nonneg(v);
    if v3_dot(v, v) == 0 {
        assert(crate::precision::isqrt_spec((0 * (SCALE as int)) as nat) == 0);
    }
}

// --- Spring ---

/// A spring between this particle and another one, named by arena index.
#[derive(Clone, Copy, Debug, PartialEq, Eq, Structural)]
pub struct ParticleSpring {
    /// Arena index of the particle at the other end of the spring.
    pub other: usize,
    /// The spring constant.
    pub spring_constant: Real,
    /// The rest length of the spring.
    pub rest_length: Real,
}

impl ParticleSpring {
    /// A spring anchored to the particle at arena index `other`.
    pub fn new(other: usize, spring_constant: Real, rest_length: Real) -> (r: ParticleSpring)
        ensures
            r.other == other,
            r.spring_constant == spring_constant,
            r.rest_length == rest_length,
    {
        ParticleSpring { other, spring_constant, rest_length }
    }
}

/// The spring force `-d̂ * k * (|d| - rest)` for `d = pos - other_pos`,
/// pulling the ends together when stretched; zero at zero separation.
pub open spec fn spring_force(pos: V3, other_pos: V3, k: int, rest: int) -> V3 {
    let d = v3_sub(pos, other_pos);
    let mag = v3_magnitude(d);
    if mag <= 0 {
        v3_zero()
    } else {
        v3_scale(v3_normalized(d), -smul(mag - rest, k))
    }
}

/// Whether one spring update stays representable.
pub open spec fn spring_update_fits(p: ParticleModel, other_pos: V3, k: int, rest: int) -> bool {
    let d = v3_sub(p.position, other_pos);
    let mag = v3_magnitude(d);
    &&& sub_fits(p.position, other_pos)
    &&& dot_fits(d, d)
    &&& (mag > 0 ==> {
        &&& in_raw(mag - rest)
        &&& in_raw(smul(mag - rest, k))
        &&& in_raw(-smul(mag - rest, k))
        &&& normalized_fits(d)
        &&& scale_fits(v3_normalized(d), -smul(mag - rest, k))
        &&& add_fits(p.force_accum, spring_force(p.position, other_pos, k, rest))
    })
}

impl ParticleSpring {
    /// Add the spring force toward the given far-end position; coincident
    /// ends produce no force.
    pub fn update_force(&self, particle: &mut Particle, other_position: Vec3, _duration: Real)
        requires
            spring_update_fits(
                old(particle)@,
                other_position@,
                self.spring_constant@,
                self.rest_length@,
            ),
        ensures
            final(particle)@ == (ParticleModel {
                force_accum: v3_add(
                    old(particle)@.force_accum,
                    spring_force(
                        old(particle)@.position,
                        other_position@,
                        self.spring_constant@,
                        self.rest_length@,
                    ),
                ),
                ..old(particle)@
            }),
    {
        let mut force = particle.position.sub(other_position);
        let magnitude = force.magnitude();
        if magnitude.raw <= 0 {
            proof {
                assert(v3_add(old(particle)@.force_accum, v3_zero()) == old(
                    particle,
                )@.force_accum);
            }
            return ;
        }
        let m2 = magnitude.sub(self.rest_length).mul(self.spring_constant).neg();
        proof {
            lemma_positive_magnitude_means_positive_mag_sq(force@);
        }
        force.normalize();
        let f = force.scale(m2);
        particle.add_force(&f);
    }
}

// --- Anchored spring ---

/// A spring whose far end is a fixed point in space.
#[derive(Clone, Copy, Debug, PartialEq, Eq, Structural)]
pub struct ParticleAnchoredSpring {
    /// The fixed location of the anchored end of the spring.
    pub anchor: Vec3,
    /// The spring constant.
    pub spring_constant: Real,
    /// The rest length of the spring.
    pub rest_length: Real,
}

impl ParticleAnchoredSpring {
    /// A spring anchored at the given point.
    pub fn new(anchor: Vec3, spring_constant: Real, rest_length: Real) -> (r:
        ParticleAnchoredSpring)
        ensures
            r.anchor == anchor,
            r.spring_constant == spring_constant,
            r.rest_length == rest_length,
    {
        ParticleAnchoredSpring { anchor, spring_constant, rest_length }
    }
}

/// The anchored-spring force `d̂ * k * (rest - |d|)` for `d = pos - anchor`;
/// zero at zero separation.
pub open spec fn anchored_spring_force(pos: V3, anchor: V3, k: int, rest: int) -> V3 {
    let d = v3_sub(pos, anchor);
    let mag = v3_magnitude(d);
    if mag <= 0 {
        v3_zero()
    } else {
        v3_scale(v3_normalized(d), smul(k, rest - mag))
    }
}

/// Whether one anchored-spring update stays representable.
pub open spec fn anchored_spring_update_fits(p: ParticleModel, anchor: V3, k: int, rest: int) -> bool {
    let d = v3_sub(p.position, anchor);
    let mag = v3_magnitude(d);
    &&& sub_fits(p.position, anchor)
    &&& dot_fits(d, d)
    &&& (mag > 0 ==> {
        &&& in_raw(rest - mag)
        &&& in_raw(smul(k, rest - mag))
        &&& normalized_fits(d)
        &&& scale_fits(v3_normalized(d), smul(k, rest - mag))
        &&& add_fits(p.force_accum, anchored_spring_force(p.position, anchor, k, rest))
    })
}

impl ParticleAnchoredSpring {
    /// Add the spring force toward (or away from) the anchor; a particle at
    /// the anchor itself gets no force.
    pub fn update_force(&self, particle: &mut Particle, _duration: Real)
        requires
            anchored_spring_update_fits(
                old(particle)@,
                self.anchor@,
                self.spring_constant@,
                self.rest_length@,
            ),
        ensures
            final(particle)@ == (ParticleModel {
                force_accum: v3_add(
                    old(particle)@.force_accum,
                    anchored_spring_force(
                        old(particle)@.position,
                        self.anchor@,
                        self.spring_constant@,
                        self.rest_length@,
                    ),
                ),
                ..old(particle)@
            }),
    {
        let mut force = particle.position.sub(self.anchor);
        let magnitude = force.magnitude();
        if magnitude.raw <= 0 {
            proof {
                assert(v3_add(old(particle)@.force_accum, v3_zero()) == old(
                    particle,
                )@.force_accum);
            }
            return ;
        }
        let m2 = self.spring_constant.mul(self.rest_length.sub(magnitude));
        proof {
            lemma_positive_magnitude_means_positive_mag_sq(force@);
        }
        force.normalize();
        let f = force.scale(m2);
        particle.add_force(&f);
    }
}

// --- Bungee ---

/// A spring that only pulls: slack or compressed it exerts nothing.
#[derive(Clone, Copy, Debug, PartialEq, Eq, Structural)]
pub struct ParticleBungee {
    /// Arena index of the particle at the other end of the bungee.
    pub other: usize,
    /// The spring constant.
    pub spring_constant: Real,
    /// The rest length of the bungee.
    pub rest_length: Real,
}

impl ParticleBungee {
    /// A bungee tied to the particle at arena index `other`.
    pub fn new(other: usize, spring_constant: Real, rest_length: Real) -> (r: ParticleBungee)
        ensures
            r.other == other,
            r.spring_constant == spring_constant,
            r.rest_length == rest_length,
    {
        ParticleBungee { other, spring_constant, rest_length }
    }
}

/// The bungee force: nothing while `|d| <= rest`; stretched beyond its rest
/// length it pulls like the spring, `d̂ * k * (rest - |d|)`.
pub open spec fn bungee_force(pos: V3, other_pos: V3, k: int, rest: int) -> V3 {
    let d = v3_sub(pos, other_pos);
    let mag = v3_magnitude(d);
    if mag <= rest {
        v3_zero()
    } else {
        v3_scale(v3_normalized(d), smul(k, rest - mag))
    }
}

/// Whether one bungee update stays representable.
pub open spec fn bungee_update_fits(p: ParticleModel, other_pos: V3, k: int, rest: int) -> bool {
    let d = v3_sub(p.position, other_pos);
    let mag = v3_magnitude(d);
    &&& sub_fits(p.position, other_pos)
    &&& dot_fits(d, d)
    &&& (mag > rest ==> {
        &&& in_raw(rest - mag)
        &&& in_raw(smul(k, rest - mag))
        &&& normalized_fits(d)
        &&& scale_fits(v3_normalized(d), smul(k, rest - mag))
        &&& add_fits(p.force_accum, bungee_force(p.position, other_pos, k, rest))
    })
}

impl ParticleBungee {
    /// Add the bungee's pull toward the far end when stretched beyond its
    /// rest length; otherwise do nothing.
    pub fn update_force(&self, particle: &mut Particle, other_position: Vec3, _duration: Real)
        requires
            bungee_update_fits(
                old(particle)@,
                other_position@,
                self.spring_constant@,
                self.rest_length@,
            ),
        ensures
            final(particle)@ == (ParticleModel {
                force_accum: v3_add(
                    old(particle)@.force_accum,
                    bungee_force(
                        old(particle)@.position,
                        other_position@,
                        self.spring_constant@,
                        self.rest_length@,
                    ),
                ),
                ..old(particle)@
            }),
    {
        let mut force = particle.position.sub(other_position);
        let magnitude = force.magnitude();
        if magnitude.raw <= self.rest_length.raw {
            proof {
                assert(v3_add(old(particle)@.force_accum, v3_zero()) == old(
                    particle,
                )@.force_accum);
            }
            return ;
        }
        let m2 = self.spring_constant.mul(self.rest_length.sub(magnitude));
        proof {
            lemma_positive_magnitude_means_positive_mag_sq(force@);
            crate::vec3::lemma_v3_dot_self_nonneg(force@);
        }
        force.normalize();
        let f = force.scale(m2);
        particle.add_force(&f);
    }
}

// --- Buoyancy ---

/// Buoyancy against a liquid plane is deliberately out of this core's scope;
/// the type stands as a placeholder without behaviour.
#[derive(Clone, Copy, Debug, PartialEq, Eq, Structural)]
pub struct ParticleBuoyancy {}

// --- The generators as one closed type ---

/// The closed set of force generators, dispatched by `update_force`.
#[derive(Clone, Copy, Debug, PartialEq, Eq, Structural)]
pub enum ParticleForceGenerator {
    Gravity(ParticleGravity),
    Drag(ParticleDrag),
    Spring(ParticleSpring),
    AnchoredSpring(ParticleAnchoredSpring),
    Bungee(ParticleBungee),
}

/// Whether the arena indices a generator names lie inside an arena of `n`
/// particles.
pub open spec fn generator_wf(g: ParticleForceGenerator, n: int) -> bool {
    match g {
        ParticleForceGenerator::Spring(s) => (s.other as int) < n,
        ParticleForceGenerator::Bungee(b) => (b.other as int) < n,
        _ => true,
    }
}

/// The force a generator contributes to particle `i` of the arena `ps`.
pub open spec fn generator_force(g: ParticleForceGenerator, ps: Seq<ParticleModel>, i: int) -> V3 {
    match g {
        ParticleForceGenerator::Gravity(gr) => gravity_force(gr.gravity@, ps[i]),
        ParticleForceGenerator::Drag(dr) => drag_force(dr.k1@, dr.k2@, ps[i]),
        ParticleForceGenerator::Spring(s) => spring_force(
            ps[i].position,
            ps[s.other as int].position,
            s.spring_constant@,
            s.rest_length@,
        ),
        ParticleForceGenerator::AnchoredSpring(a) => anchored_spring_force(
            ps[i].position,
            a.anchor@,
            a.spring_constant@,
            a.rest_length@,
        ),
        ParticleForceGenerator::Bungee(b) => bungee_force(
            ps[i].position,
            ps[b.other as int].position,
            b.spring_constant@,
            b.rest_length@,
        ),
    }
}

/// The arena after one generator ran against particle `i`: only that
/// particle's force accumulator changes.
pub open spec fn apply_generator(
    g: ParticleForceGenerator,
    ps: Seq<ParticleModel>,
    i: int,
) -> Seq<ParticleModel> {
    ps.update(
        i,
        ParticleModel { force_accum: v3_add(ps[i].force_accum, generator_force(g, ps, i)), ..ps[i] },
    )
}

/// Whether one generator update stays representable.
pub open spec fn generator_fits(g: ParticleForceGenerator, ps: Seq<ParticleModel>, i: int) -> bool {
    match g {
        ParticleForceGenerator::Gravity(gr) => gravity_update_fits(gr.gravity@, ps[i]),
        ParticleForceGenerator::Drag(dr) => drag_update_fits(dr.k1@, dr.k2@, ps[i]),
        ParticleForceGenerator::Spring(s) => spring_update_fits(
            ps[i],
            ps[s.other as int].position,
            s.spring_constant@,
            s.rest_length@,
        ),
        ParticleForceGenerator::AnchoredSpring(a) => anchored_spring_update_fits(
            ps[i],
            a.anchor@,
            a.spring_constant@,
            a.rest_length@,
        ),
        ParticleForceGenerator::Bungee(b) => bungee_update_fits(
            ps[i],
            ps[b.other as int].position,
            b.spring_constant@,
            b.rest_length@,
        ),
    }
}

/// Replacing one particle of an arena replaces one entry of its view.
proof fn lemma_views_update(s: Seq<Particle>, i: int, v: Particle)
    requires
        0 <= i < s.len(),
    ensures
        views(s.update(i, v)) =~= views(s).update(i, v@),
{
}

impl ParticleForceGenerator {
    /// Run this generator against particle `target` of the arena; only that
    /// particle's force accumulator changes.
    pub fn update_force(&self, particles: &mut Vec<Particle>, target: usize, duration: Real)
        requires
            (target as int) < old(particles)@.len(),
            generator_wf(*self, old(particles)@.len() as int),
            generator_fits(*self, views(old(particles)@), target as int),
        ensures
            final(particles)@.len() == old(particles)@.len(),
            views(final(particles)@) == apply_generator(
                *self,
                views(old(particles)@),
                target as int,
            ),
    {
        proof {
            assert(views(old(particles)@)[target as int] == old(particles)@[target as int]@);
        }
        match self {
            ParticleForceGenerator::Gravity(g) => {
                let slot = &mut particles[target];
                g.update_force(slot, duration);
            },
            ParticleForceGenerator::Drag(d) => {
                let slot = &mut particles[target];
                d.update_force(slot, duration);
            },
            ParticleForceGenerator::Spring(s) => {
                let other_position = particles[s.other].position;
                let slot = &mut particles[target];
                s.update_force(slot, other_position, duration);
            },
            ParticleForceGenerator::AnchoredSpring(a) => {
                let slot = &mut particles[target];
                a.update_force(slot, duration);
            },
            ParticleForceGenerator::Bungee(b) => {
                let other_position = particles[b.other].position;
                let slot = &mut particles[target];
                b.update_force(slot, other_position, duration);
            },
        }
        proof {
            lemma_views_update(
                old(particles)@,
                target as int,
                particles@[target as int],
            );
            assert(views(particles@) =~= apply_generator(
                *self,
                views(old(particles)@),
                target as int,
            ));
        }
    }
}

// --- The registry ---

/// One registration: a particle, by arena index, and the generator that
/// applies to it.
#[derive(Clone, Copy, Debug, PartialEq, Eq, Structural)]
pub struct ParticleForceRegistration {
    /// Arena index of the particle the generator applies to.
    pub particle: usize,
    /// The generator registered against that particle.
    pub force_generator: ParticleForceGenerator,
}

/// The registrations that `remove(particle, fg)` keeps: those that do not
/// pair that particle with that generator.
pub open spec fn keeps(particle: usize, fg: ParticleForceGenerator) -> spec_fn(
    ParticleForceRegistration,
) -> bool {
    |r: ParticleForceRegistration| !(r.particle == particle && r.force_generator == fg)
}

/// Whether every registration names only particles of an arena of `n`.
pub open spec fn registry_wf(regs: Seq<ParticleForceRegistration>, n: int) -> bool {
    forall|j: int|
        0 <= j < regs.len() ==> ((#[trigger] regs[j]).particle as int) < n && generator_wf(
            regs[j].force_generator,
            n,
        )
}

/// The arena after the registrations ran in order, each accumulating its
/// force into its particle.
pub open spec fn apply_registrations(
    regs: Seq<ParticleForceRegistration>,
    ps: Seq<ParticleModel>,
) -> Seq<ParticleModel>
    decreases regs.len(),
{
    if regs.len() == 0 {
        ps
    } else {
        apply_registrations(
            regs.drop_first(),
            apply_generator(regs[0].force_generator, ps, regs[0].particle as int),
        )
    }
}

/// Whether every update along the run of the registrations stays
/// representable.
pub open spec fn registrations_fit(
    regs: Seq<ParticleForceRegistration>,
    ps: Seq<ParticleModel>,
) -> bool
    decreases regs.len(),
{
    regs.len() == 0 || {
        &&& generator_fits(regs[0].force_generator, ps, regs[0].particle as int)
        &&& registrations_fit(
            regs.drop_first(),
            apply_generator(regs[0].force_generator, ps, regs[0].particle as int),
        )
    }
}

/// Maintains the associations between particles and force generators and,
/// once per step, has every generator accumulate its force.
#[derive(Debug)]
pub struct ParticleForceRegistry {
    /// The registrations, in the order they run each step.
    pub registrations: Vec<ParticleForceRegistration>,
}

impl ParticleForceRegistry {
    /// An empty registry.
    pub fn new() -> (r: ParticleForceRegistry)
        ensures
            r.registrations@ == Seq::<ParticleForceRegistration>::empty(),
    {
        ParticleForceRegistry { registrations: Vec::new() }
    }

    /// Register that the given force generator applies to the particle at
    /// arena index `particle`.
    pub fn add(&mut self, particle: usize, fg: ParticleForceGenerator)
        ensures
            final(self).registrations@ == old(self).registrations@.push(
                ParticleForceRegistration { particle, force_generator: fg },
            ),
    {
        self.registrations.push(ParticleForceRegistration { particle, force_generator: fg });
    }

    /// Remove every registration of the given force generator against the
    /// particle at arena index `particle`; other registrations keep their
    /// order.
    pub fn remove(&mut self, particle: usize, fg: &ParticleForceGenerator)
        ensures
            final(self).registrations@ == old(self).registrations@.filter(keeps(particle, *fg)),
    {
        let ghost pred = keeps(particle, *fg);
        let mut kept: Vec<ParticleForceRegistration> = Vec::new();
        let n = self.registrations.len();
        let mut i: usize = 0;
        proof {
            reveal_with_fuel(Seq::<_>::filter, 1);
            assert(self.registrations@.take(0).filter(pred) =~= Seq::<
                ParticleForceRegistration,
            >::empty());
        }
        while i < n
            invariant
                i <= n,
                n == self.registrations@.len(),
                pred == keeps(particle, *fg),
                kept@ == self.registrations@.take(i as int).filter(pred),
            decreases n - i,
        {
            let r = self.registrations[i];
            let keep_it: bool = !(r.particle == particle && r.force_generator == *fg);
            proof {
                assert(keep_it == pred(self.registrations@[i as int]));
            }
            if keep_it {
                kept.push(r);
            }
            proof {
                reveal_with_fuel(Seq::<_>::filter, 2);
                let regs = self.registrations@;
                assert(regs.take(i + 1).drop_last() =~= regs.take(i as int));
                assert(regs.take(i + 1).last() == regs[i as int]);
                assert(regs.take(i + 1).filter(pred) == if pred(regs[i as int]) {
                    regs.take(i as int).filter(pred).push(regs[i as int])
                } else {
                    regs.take(i as int).filter(pred)
                });
            }
            i = i + 1;
        }
        proof {
            assert(self.registrations@.take(n as int) =~= self.registrations@);
        }
        self.registrations = kept;
    }

    /// Remove every registration.
    pub fn clear(&mut self)
        ensures
            final(self).registrations@ == Seq::<ParticleForceRegistration>::empty(),
    {
        self.registrations = Vec::new();
    }

    /// Run every registration, in order, against the arena: each generator
    /// accumulates its force into its particle before anything integrates.
    pub fn update_forces(&self, particles: &mut Vec<Particle>, duration: Real)
        requires
            registry_wf(self.registrations@, old(particles)@.len() as int),
            registrations_fit(self.registrations@, views(old(particles)@)),
        ensures
            final(particles)@.len() == old(particles)@.len(),
            views(final(particles)@) == apply_registrations(
                self.registrations@,
                views(old(particles)@),
            ),
    {
        let ghost regs = self.registrations@;
        let ghost initial = views(old(particles)@);
        let n = self.registrations.len();
        let mut i: usize = 0;
        proof {
            assert(regs.skip(0) =~= regs);
        }
        while i < n
            invariant
                i <= n,
                n == regs.len(),
                regs == self.registrations@,
                particles@.len() == initial.len(),
                registry_wf(regs, particles@.len() as int),
                registrations_fit(regs.skip(i as int), views(particles@)),
                apply_registrations(regs.skip(i as int), views(particles@))
                    == apply_registrations(regs, initial),
            decreases n - i,
        {
            let reg = self.registrations[i];
            proof {
                assert(regs.skip(i as int)[0] == regs[i as int]);
                assert(regs.skip(i as int).drop_first() =~= regs.skip(i + 1));
            }
            reg.force_generator.update_force(particles, reg.particle, duration);
            i = i + 1;
        }
        proof {
            assert(regs.skip(n as int) =~= Seq::<ParticleForceRegistration>::empty());
        }
    }
}

// --- Laws of the generators and of the accumulation phase ---

/// Truncating division flips sign with its dividend.
proof fn lemma_tdiv_neg(x: int, d: int)
    requires
        d > 0,
    ensures
        crate::precision::tdiv(-x, d) == -crate::precision::tdiv(x, d),
{
}

/// An immovable particle accumulates no force from gravity.
pub proof fn lemma_gravity_immovable(gravity: V3, p: ParticleModel)
    requires
        p.inverse_mass == 0,
    ensures
        gravity_force(gravity, p) == v3_zero(),
{
}

/// A bungee at or under its rest length exerts no force.
pub proof fn lemma_bungee_slack(pos: V3, other_pos: V3, k: int, rest: int)
    requires
        v3_magnitude(v3_sub(pos, other_pos)) <= rest,
    ensures
        bungee_force(pos, other_pos, k, rest) == v3_zero(),
{
}

/// A bungee stretched beyond its (nonnegative) rest length exerts exactly
/// the spring force: same magnitude, same pull toward the other end.
pub proof fn lemma_bungee_taut_matches_spring(pos: V3, other_pos: V3, k: int, rest: int)
    requires
        rest >= 0,
        v3_magnitude(v3_sub(pos, other_pos)) > rest,
    ensures
        bungee_force(pos, other_pos, k, rest) == spring_force(pos, other_pos, k, rest),
{
    let d = v3_sub(pos, other_pos);
    let mag = v3_magnitude(d);
    assert(k * (rest - mag) == -((mag - rest) * k)) by (nonlinear_arith);
    lemma_tdiv_neg((mag - rest) * k, SCALE as int);
}

/// The accumulation phase only accumulates: running any registrations
/// changes no particle's position, velocity, acceleration, damping or
/// inverse mass, and keeps the arena's size.
pub proof fn lemma_registry_only_accumulates(
    regs: Seq<ParticleForceRegistration>,
    ps: Seq<ParticleModel>,
)
    requires
        registry_wf(regs, ps.len() as int),
    ensures
        apply_registrations(regs, ps).len() == ps.len(),
        forall|j: int|
            0 <= j < ps.len() ==> {
                let q = #[trigger] apply_registrations(regs, ps)[j];
                &&& q.position == ps[j].position
                &&& q.velocity == ps[j].velocity
                &&& q.acceleration == ps[j].acceleration
                &&& q.damping == ps[j].damping
                &&& q.inverse_mass == ps[j].inverse_mass
            },
    decreases regs.len(),
{
    if regs.len() == 0 {
    } else {
        let qs = apply_generator(regs[0].force_generator, ps, regs[0].particle as int);
        assert(registry_wf(regs.drop_first(), qs.len() as int)) by {
            assert(forall|j: int|
                0 <= j < regs.drop_first().len() ==> regs.drop_first()[j] == regs[j + 1]);
        }
        lemma_registry_only_accumulates(regs.drop_first(), qs);
    }
}

} // verus!
