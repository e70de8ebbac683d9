//! The simulated particle: kinematic state, an accumulated-force buffer, and
//! the semi-implicit Euler integration step.

use crate::precision::{in_raw, lemma_recip_in_raw, pow_spec, sdiv, smul, Real, SCALE};
use vstd::arithmetic::div_mod::lemma_div_is_ordered_by_denominator;
use crate::vec3::{add_fits, scale_fits, v3_add, v3_scale, v3_zero, Vec3, V3};
use vstd::prelude::*;

verus! {

/// The mathematical state of a particle: raw components of its vectors and
/// scalars.
pub ghost struct ParticleModel {
    pub position: V3,
    pub velocity: V3,
    pub acceleration: V3,
    pub damping: int,
    pub inverse_mass: int,
    pub force_accum: V3,
}

/// The state after one semi-implicit Euler step of length `d`:
/// position moves along the old velocity, then velocity picks up the
/// resulting acceleration and is damped by `damping^d`, and the force
/// accumulator is emptied. A particle of zero (or negative) inverse mass is
/// immovable and left untouched.
pub open spec fn integrate_spec(p: ParticleModel, d: int) -> ParticleModel {
    if p.inverse_mass <= 0 {
        p
    } else {
        let position = v3_add(p.position, v3_scale(p.velocity, d));
        let resulting_acc = v3_add(p.acceleration, v3_scale(p.force_accum, p.inverse_mass));
        let velocity = v3_scale(
            v3_add(p.velocity, v3_scale(resulting_acc, d)),
            pow_spec(p.damping, d),
        );
        ParticleModel {
            position,
            velocity,
            acceleration: p.acceleration,
            damping: p.damping,
            inverse_mass: p.inverse_mass,
            force_accum: v3_zero(),
        }
    }
}

/// Whether every intermediate of one integration step stays representable,
/// and the damping factor lies in `[0, 1]` as the data model demands.
pub open spec fn integrate_fits(p: ParticleModel, d: int) -> bool {
    p.inverse_mass > 0 ==> {
        let vscaled = v3_scale(p.velocity, d);
        let fscaled = v3_scale(p.force_accum, p.inverse_mass);
        let racc = v3_add(p.acceleration, fscaled);
        let dv = v3_scale(racc, d);
        let v1 = v3_add(p.velocity, dv);
        &&& 0 <= p.damping <= SCALE as int
        &&& scale_fits(p.velocity, d)
        &&& add_fits(p.position, vscaled)
        &&& scale_fits(p.force_accum, p.inverse_mass)
        &&& add_fits(p.acceleration, fscaled)
        &&& scale_fits(racc, d)
        &&& add_fits(p.velocity, dv)
        &&& scale_fits(v1, pow_spec(p.damping, d))
    }
}

/// A point mass with position, velocity, acceleration, a damping factor in
/// `(0, 1]`, an inverse mass (`0` encodes an immovable, infinite mass), and
/// the forces accumulated since the last integration step.
#[derive(Clone, Copy, Debug)]
pub struct Particle {
    pub position: Vec3,
    pub velocity: Vec3,
    pub acceleration: Vec3,
    pub damping: Real,
    pub inverse_mass: Real,
    pub force_accum: Vec3,
}

impl View for Particle {
    type V = ParticleModel;

    open spec fn view(&self) -> ParticleModel {
        ParticleModel {
            position: self.position@,
            velocity: self.velocity@,
            acceleration: self.acceleration@,
            damping: self.damping@,
            inverse_mass: self.inverse_mass@,
            force_accum: self.force_accum@,
        }
    }
}

impl Particle {
    /// A particle with zeroed state and zero inverse mass: it must be given
    /// a mass before it can move.
    pub fn new() -> (r: Particle)
        ensures
            r@.position == v3_zero(),
            r@.velocity == v3_zero(),
            r@.acceleration == v3_zero(),
            r@.damping == 0,
            r@.inverse_mass == 0,
            r@.force_accum == v3_zero(),
    {
        Particle {
            position: Vec3::zero(),
            velocity: Vec3::zero(),
            acceleration: Vec3::zero(),
            damping: Real::zero(),
            inverse_mass: Real::zero(),
            force_accum: Vec3::zero(),
        }
    }

    /// Whether the particle can move: its inverse mass is nonzero.
    pub fn has_finite_mass(&self) -> (r: bool)
        ensures
            r == (self@.inverse_mass > 0),
    {
        self.inverse_mass.raw > 0
    }

    /// Store the reciprocal of a strictly positive mass. The mass must stay
    /// under a million units (one `SCALE` of scalars): beyond that the
    /// truncated reciprocal would collapse to zero and turn an explicitly
    /// massed particle into an immovable one. Within the bound the particle
    /// is guaranteed movable afterwards.
    pub fn set_mass(&mut self, mass: Real)
        requires
            0 < mass@ < 1_000_000_000_000,
        ensures
            final(self)@ == (ParticleModel {
                inverse_mass: sdiv(SCALE as int, mass@),
                ..old(self)@
            }),
            final(self)@.inverse_mass >= 1,
    {
        proof {
            lemma_recip_in_raw(mass@);
            lemma_div_is_ordered_by_denominator(1_000_000_000_000, mass@, 1_000_000_000_000);
            assert(1_000_000_000_000int / 1_000_000_000_000 == 1);
        }
        self.inverse_mass = Real::one().div(mass);
    }

    /// The particle's mass: the reciprocal of its inverse mass, or the
    /// largest representable scalar for an immovable particle.
    pub fn mass(&self) -> (r: Real)
        requires
            self@.inverse_mass >= 0,
        ensures
            r@ == if self@.inverse_mass == 0 {
                i64::MAX as int
            } else {
                sdiv(SCALE as int, self@.inverse_mass)
            },
    {
        if self.inverse_mass.raw == 0 {
            Real::max_value()
        } else {
            proof {
                lemma_recip_in_raw(self@.inverse_mass);
            }
            Real::one().div(self.inverse_mass)
        }
    }

    /// Add a force to the accumulator; no other state changes, so repeated
    /// calls between integration steps compose additively.
    pub fn add_force(&mut self, force: &Vec3)
        requires
            add_fits(old(self)@.force_accum, force@),
        ensures
            final(self)@ == (ParticleModel {
                force_accum: v3_add(old(self)@.force_accum, force@),
                ..old(self)@
            }),
    {
        let acc = self.force_accum;
        self.force_accum = acc.add(*force);
    }

    /// Empty the force accumulator.
    pub fn clear_accumulator(&mut self)
        ensures
            final(self)@ == (ParticleModel { force_accum: v3_zero(), ..old(self)@ }),
    {
        self.force_accum.clear();
    }

    /// Whether the particle's whole state is moderate: the executable
    /// counterpart of `particle_moderate`, for a host to test before asking
    /// for an integration step (`lemma_integrate_fits_moderate` then
    /// guarantees the step fits).
    pub fn is_moderate(&self) -> (r: bool)
        ensures
            r == particle_moderate(self@),
    {
        vec3_within_moderate(&self.position) && vec3_within_moderate(&self.velocity)
            && vec3_within_moderate(&self.acceleration) && vec3_within_moderate(&self.force_accum)
            && 0 <= self.inverse_mass.raw && self.inverse_mass.raw <= 1_000_000_000
            && 0 <= self.damping.raw && self.damping.raw <= SCALE
    }

    /// One semi-implicit Euler step: see `integrate_spec` for the exact
    /// result. The caller must supply a strictly positive duration.
    pub fn integrate(&mut self, duration: Real)
        requires
            duration@ > 0,
            integrate_fits(old(self)@, duration@),
        ensures
            final(self)@ == integrate_spec(old(self)@, duration@),
    {
        if self.inverse_mass.raw <= 0 {
            return ;
        }
        let vel = self.velocity;
        self.position.add_scaled(vel, duration);
        let mut resulting_acc = self.acceleration;
        resulting_acc.add_scaled(self.force_accum, self.inverse_mass);
        self.velocity.add_scaled(resulting_acc, duration);
        let damp = self.damping.pow(duration);
        let vel2 = self.velocity;
        self.velocity = vel2.scale(damp);
        self.clear_accumulator();
    }
}

/// Whether every component of a vector lies within a thousand units.
fn vec3_within_moderate(v: &Vec3) -> (r: bool)
    ensures
        r == v3_moderate(v@),
{
    -1_000_000_000 <= v.x.raw && v.x.raw <= 1_000_000_000 && -1_000_000_000 <= v.y.raw
        && v.y.raw <= 1_000_000_000 && -1_000_000_000 <= v.z.raw && v.z.raw <= 1_000_000_000
}

/// Whether a raw scalar stays within a thousand units of zero — small
/// enough that a whole integration step is then representable.
pub open spec fn moderate(a: int) -> bool {
    crate::precision::abs_i(a) <= 1_000_000_000
}

/// Whether every component of a vector is moderate.
pub open spec fn v3_moderate(v: V3) -> bool {
    moderate(v.x) && moderate(v.y) && moderate(v.z)
}

/// Whether a particle's whole state is moderate, with a damping factor in
/// `[0, 1]` as the data model demands.
pub open spec fn particle_moderate(p: ParticleModel) -> bool {
    &&& v3_moderate(p.position)
    &&& v3_moderate(p.velocity)
    &&& v3_moderate(p.acceleration)
    &&& v3_moderate(p.force_accum)
    &&& 0 <= p.inverse_mass <= 1_000_000_000
    &&& 0 <= p.damping <= SCALE as int
}

/// Every intermediate of one component of the integration step stays
/// representable when the inputs are moderate.
proof fn lemma_component_step_fits(pos: int, vel: int, acc: int, force: int, im: int, d: int, f: int)
    requires
        moderate(pos),
        moderate(vel),
        moderate(acc),
        moderate(force),
        0 <= im <= 1_000_000_000,
        0 < d <= 1_000_000_000,
        0 <= f <= SCALE as int,
    ensures
        in_raw(smul(vel, d)),
        in_raw(pos + smul(vel, d)),
        in_raw(smul(force, im)),
        in_raw(acc + smul(force, im)),
        in_raw(smul(acc + smul(force, im), d)),
        in_raw(vel + smul(acc + smul(force, im), d)),
        in_raw(smul(vel + smul(acc + smul(force, im), d), f)),
{
    crate::precision::lemma_smul_abs_bound(vel, d, 1_000_000_000, 1_000_000_000);
    crate::precision::lemma_smul_abs_bound(force, im, 1_000_000_000, 1_000_000_000);
    assert(1_000_000_000int * 1_000_000_000 / 1_000_000 == 1_000_000_000_000);
    crate::precision::lemma_smul_abs_bound(acc + smul(force, im), d, 1_001_000_000_000, 1_000_000_000);
    assert(1_001_000_000_000int * 1_000_000_000 / 1_000_000 == 1_001_000_000_000_000);
    crate::precision::lemma_smul_abs_bound(
        vel + smul(acc + smul(force, im), d),
        f,
        2_000_000_000_000_000,
        1_000_000,
    );
    assert(2_000_000_000_000_000int * 1_000_000 / 1_000_000 == 2_000_000_000_000_000);
}

/// A moderate particle integrated over a moderate positive step always
/// fits: callers with everyday magnitudes can discharge `integrate_fits`
/// through this lemma alone.
pub proof fn lemma_integrate_fits_moderate(p: ParticleModel, d: int)
    requires
        particle_moderate(p),
        0 < d <= 1_000_000_000,
    ensures
        integrate_fits(p, d),
{
    crate::precision::lemma_pow_spec_range(p.damping, d);
    let f = pow_spec(p.damping, d);
    lemma_component_step_fits(
        p.position.x,
        p.velocity.x,
        p.acceleration.x,
        p.force_accum.x,
        p.inverse_mass,
        d,
        f,
    );
    lemma_component_step_fits(
        p.position.y,
        p.velocity.y,
        p.acceleration.y,
        p.force_accum.y,
        p.inverse_mass,
        d,
        f,
    );
    lemma_component_step_fits(
        p.position.z,
        p.velocity.z,
        p.acceleration.z,
        p.force_accum.z,
        p.inverse_mass,
        d,
        f,
    );
}

/// Reading the mass back after setting it never understates it, and is
/// exact whenever the mass divides the square of the scale evenly (as every
/// whole number of units does): `mass` after `set_mass(m)` returns at least
/// `m`, a particle given a mass is always movable, and the overestimate is
/// only the truncation of the two reciprocals.
pub proof fn lemma_set_mass_mass_roundtrip(m: int)
    requires
        0 < m < 1_000_000_000_000,
    ensures
        sdiv(SCALE as int, m) >= 1,
        sdiv(SCALE as int, sdiv(SCALE as int, m)) >= m,
        (1_000_000_000_000int % m == 0) ==> sdiv(SCALE as int, sdiv(SCALE as int, m)) == m,
{
    lemma_div_is_ordered_by_denominator(1_000_000_000_000, m, 1_000_000_000_000);
    assert(1_000_000_000_000int / 1_000_000_000_000 == 1);
    let q = 1_000_000_000_000int / m;
    vstd::arithmetic::div_mod::lemma_fundamental_div_mod(1_000_000_000_000, m);
    vstd::arithmetic::mul::lemma_mul_is_commutative(m, q);
    vstd::arithmetic::div_mod::lemma_div_multiples_vanish(m, q);
    vstd::arithmetic::div_mod::lemma_div_is_ordered(q * m, 1_000_000_000_000, q);
    vstd::arithmetic::mul::lemma_mul_nonnegative(q, m);
}

/// Under zero acceleration and an empty accumulator, one integration step
/// scales the velocity by exactly `damping^duration` and nothing else: the
/// damping factor depends only on the damping value and the elapsed time.
pub proof fn lemma_integrate_pure_damping(p: ParticleModel, d: int)
    requires
        p.inverse_mass > 0,
        p.acceleration == v3_zero(),
        p.force_accum == v3_zero(),
    ensures
        integrate_spec(p, d).velocity == v3_scale(p.velocity, pow_spec(p.damping, d)),
{
    assert(v3_scale(v3_zero(), p.inverse_mass) == v3_zero());
    assert(v3_add(v3_zero(), v3_zero()) == v3_zero());
    assert(v3_scale(v3_zero(), d) == v3_zero());
    assert(v3_add(p.velocity, v3_zero()) == p.velocity);
}

/// An immovable particle (zero inverse mass) is left entirely unchanged by
/// integration, whatever the step length: in particular its position and
/// velocity do not move.
pub proof fn lemma_integrate_immovable(p: ParticleModel, d: int)
    requires
        p.inverse_mass == 0,
    ensures
        integrate_spec(p, d) == p,
{
}

/// With a damping factor of one, integration applies no damping at all:
/// the new velocity is exactly the old one plus the resulting acceleration
/// times the step length. Since one to any power is one, this is the
/// fragment of frame-rate independence that fixed-point rounding leaves
/// exact: splitting a step changes nothing about the damping applied.
pub proof fn lemma_integrate_undamped(p: ParticleModel, d: int)
    requires
        p.inverse_mass > 0,
        p.damping == SCALE as int,
        d >= 0,
    ensures
        integrate_spec(p, d).velocity == v3_add(
            p.velocity,
            v3_scale(v3_add(p.acceleration, v3_scale(p.force_accum, p.inverse_mass)), d),
        ),
{
    crate::precision::lemma_pow_one_base(d);
    let v1 = v3_add(p.velocity, v3_scale(v3_add(p.acceleration, v3_scale(p.force_accum, p.inverse_mass)), d));
    crate::precision::lemma_smul_one(v1.x);
    crate::precision::lemma_smul_one(v1.y);
    crate::precision::lemma_smul_one(v1.z);
}

/// After integrating a movable particle the force accumulator is empty,
/// whatever sequence of `add_force` calls filled it beforehand.
pub proof fn lemma_integrate_clears_accumulator(p: ParticleModel, d: int)
    requires
        p.inverse_mass > 0,
    ensures
        integrate_spec(p, d).force_accum == v3_zero(),
{
}

} // verus!
