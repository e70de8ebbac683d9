//! 3D vectors over the fixed-point scalar.
//!
//! Every operation's contract states the exact componentwise result through
//! the `v3_*` spec functions; `requires` clauses only keep the raw `i64`
//! representation from overflowing.

use crate::math::MathError;
use crate::precision::{in_raw, sdiv, smul, sqrt_raw, Real, SCALE};
use vstd::arithmetic::div_mod::lemma_div_pos_is_pos;
use vstd::prelude::*;

verus! {

/// The mathematical value of a 3D vector: the three raw components.
pub ghost struct V3 {
    pub x: int,
    pub y: int,
    pub z: int,
}

/// The zero vector.
pub open spec fn v3_zero() -> V3 {
    V3 { x: 0, y: 0, z: 0 }
}

/// Componentwise sum.
pub open spec fn v3_add(a: V3, b: V3) -> V3 {
    V3 { x: a.x + b.x, y: a.y + b.y, z: a.z + b.z }
}

/// Componentwise difference.
pub open spec fn v3_sub(a: V3, b: V3) -> V3 {
    V3 { x: a.x - b.x, y: a.y - b.y, z: a.z - b.z }
}

/// Componentwise negation.
pub open spec fn v3_neg(a: V3) -> V3 {
    V3 { x: -a.x, y: -a.y, z: -a.z }
}

/// Uniform scale by a scalar.
pub open spec fn v3_scale(a: V3, s: int) -> V3 {
    V3 { x: smul(a.x, s), y: smul(a.y, s), z: smul(a.z, s) }
}

/// Componentwise product.
pub open spec fn v3_cmul(a: V3, b: V3) -> V3 {
    V3 { x: smul(a.x, b.x), y: smul(a.y, b.y), z: smul(a.z, b.z) }
}

/// Dot product.
pub open spec fn v3_dot(a: V3, b: V3) -> int {
    smul(a.x, b.x) + smul(a.y, b.y) + smul(a.z, b.z)
}

/// Cross product.
pub open spec fn v3_cross(a: V3, b: V3) -> V3 {
    V3 {
        x: smul(a.y, b.z) - smul(a.z, b.y),
        y: smul(a.z, b.x) - smul(a.x, b.z),
        z: smul(a.x, b.y) - smul(a.y, b.x),
    }
}

/// Magnitude: square root of the squared magnitude.
pub open spec fn v3_magnitude(a: V3) -> int {
    sqrt_raw(v3_dot(a, a))
}

/// The normalization guard: only a vector whose squared magnitude exceeds
/// the resolution of the scalar is scaled; anything shorter becomes zero.
pub open spec fn v3_normalized(a: V3) -> V3 {
    if v3_dot(a, a) > 0 {
        v3_scale(a, sdiv(SCALE as int, v3_magnitude(a)))
    } else {
        v3_zero()
    }
}

/// Whether a componentwise sum stays representable.
pub open spec fn add_fits(a: V3, b: V3) -> bool {
    in_raw(a.x + b.x) && in_raw(a.y + b.y) && in_raw(a.z + b.z)
}

/// Whether a componentwise difference stays representable.
pub open spec fn sub_fits(a: V3, b: V3) -> bool {
    in_raw(a.x - b.x) && in_raw(a.y - b.y) && in_raw(a.z - b.z)
}

/// Whether a componentwise negation stays representable.
pub open spec fn neg_fits(a: V3) -> bool {
    in_raw(-a.x) && in_raw(-a.y) && in_raw(-a.z)
}

/// Whether a uniform scale stays representable.
pub open spec fn scale_fits(a: V3, s: int) -> bool {
    in_raw(smul(a.x, s)) && in_raw(smul(a.y, s)) && in_raw(smul(a.z, s))
}

/// Whether a componentwise product stays representable.
pub open spec fn cmul_fits(a: V3, b: V3) -> bool {
    in_raw(smul(a.x, b.x)) && in_raw(smul(a.y, b.y)) && in_raw(smul(a.z, b.z))
}

/// Whether a dot product and its partial sums stay representable.
pub open spec fn dot_fits(a: V3, b: V3) -> bool {
    &&& in_raw(smul(a.x, b.x))
    &&& in_raw(smul(a.y, b.y))
    &&& in_raw(smul(a.z, b.z))
    &&& in_raw(smul(a.x, b.x) + smul(a.y, b.y))
    &&& in_raw(v3_dot(a, b))
}

/// Whether a cross product, with its intermediate products, stays
/// representable.
pub open spec fn cross_fits(a: V3, b: V3) -> bool {
    &&& in_raw(smul(a.y, b.z))
    &&& in_raw(smul(a.z, b.y))
    &&& in_raw(smul(a.z, b.x))
    &&& in_raw(smul(a.x, b.z))
    &&& in_raw(smul(a.x, b.y))
    &&& in_raw(smul(a.y, b.x))
    &&& in_raw(v3_cross(a, b).x)
    &&& in_raw(v3_cross(a, b).y)
    &&& in_raw(v3_cross(a, b).z)
}

/// Whether normalizing stays representable: the squared magnitude and, for a
/// vector long enough to be scaled, the scaled components.
pub open spec fn normalized_fits(a: V3) -> bool {
    &&& dot_fits(a, a)
    &&& (v3_dot(a, a) > 0 ==> scale_fits(a, sdiv(SCALE as int, v3_magnitude(a))))
}

/// A scalar times itself is never negative, so neither is its raw product.
pub proof fn lemma_smul_self_nonneg(a: int)
    ensures
        smul(a, a) >= 0,
{
    assert(a * a >= 0) by (nonlinear_arith);
    lemma_div_pos_is_pos(a * a, SCALE as int);
}

/// The squared magnitude of a vector is never negative.
pub proof fn lemma_v3_dot_self_nonneg(a: V3)
    ensures
        v3_dot(a, a) >= 0,
{
    lemma_smul_self_nonneg(a.x);
    lemma_smul_self_nonneg(a.y);
    lemma_smul_self_nonneg(a.z);
}

/// A vector whose squared magnitude is not above the scalar's resolution
/// normalizes to the zero vector — the guard that keeps a degenerate length
/// out of the scale factor.
pub proof fn lemma_normalized_degenerate(a: V3)
    requires
        v3_dot(a, a) <= 0,
    ensures
        v3_normalized(a) == v3_zero(),
{
}

/// The direction-preservation half of the unit-length property, in the
/// exact form this arithmetic supports: above the degenerate guard and up
/// to a million units of length, the normalized vector is the original
/// scaled by a strictly positive factor, so its direction is kept. (The
/// factor's closeness to the true reciprocal length is a tolerance claim
/// with no exact fixed-point statement.)
pub proof fn lemma_normalized_preserves_direction(a: V3)
    requires
        v3_dot(a, a) > 0,
        v3_magnitude(a) <= 1_000_000_000_000,
    ensures
        v3_normalized(a) == v3_scale(a, sdiv(SCALE as int, v3_magnitude(a))),
        sdiv(SCALE as int, v3_magnitude(a)) >= 1,
{
    crate::precision::lemma_sqrt_raw_positive(v3_dot(a, a));
    vstd::arithmetic::div_mod::lemma_div_is_ordered_by_denominator(
        1_000_000_000_000,
        v3_magnitude(a),
        1_000_000_000_000,
    );
    assert(1_000_000_000_000int / 1_000_000_000_000 == 1);
}

/// A 3D vector of fixed-point scalars.
#[derive(Clone, Copy, Debug, PartialEq, Eq, Structural)]
pub struct Vec3 {
    pub x: Real,
    pub y: Real,
    pub z: Real,
}

impl View for Vec3 {
    type V = V3;

    open spec fn view(&self) -> V3 {
        V3 { x: self.x@, y: self.y@, z: self.z@ }
    }
}

impl Vec3 {
    /// The vector with the given components.
    pub fn new(x: Real, y: Real, z: Real) -> (r: Vec3)
        ensures
            r@ == (V3 { x: x@, y: y@, z: z@ }),
    {
        Vec3 { x, y, z }
    }

    /// The zero vector.
    pub fn zero() -> (r: Vec3)
        ensures
            r@ == v3_zero(),
    {
        Vec3 { x: Real::zero(), y: Real::zero(), z: Real::zero() }
    }

    /// Componentwise sum.
    pub fn add(self, rhs: Vec3) -> (r: Vec3)
        requires
            add_fits(self@, rhs@),
        ensures
            r@ == v3_add(self@, rhs@),
    {
        Vec3 { x: self.x.add(rhs.x), y: self.y.add(rhs.y), z: self.z.add(rhs.z) }
    }

    /// Componentwise difference.
    pub fn sub(self, rhs: Vec3) -> (r: Vec3)
        requires
            sub_fits(self@, rhs@),
        ensures
            r@ == v3_sub(self@, rhs@),
    {
        Vec3 { x: self.x.sub(rhs.x), y: self.y.sub(rhs.y), z: self.z.sub(rhs.z) }
    }

    /// Uniform scale by a scalar.
    pub fn scale(self, s: Real) -> (r: Vec3)
        requires
            scale_fits(self@, s@),
        ensures
            r@ == v3_scale(self@, s@),
    {
        Vec3 { x: self.x.mul(s), y: self.y.mul(s), z: self.z.mul(s) }
    }

    /// Componentwise product.
    pub fn component_product(self, rhs: Vec3) -> (r: Vec3)
        requires
            cmul_fits(self@, rhs@),
        ensures
            r@ == v3_cmul(self@, rhs@),
    {
        Vec3 { x: self.x.mul(rhs.x), y: self.y.mul(rhs.y), z: self.z.mul(rhs.z) }
    }

    /// Dot product.
    pub fn dot(self, rhs: Vec3) -> (r: Real)
        requires
            dot_fits(self@, rhs@),
        ensures
            r@ == v3_dot(self@, rhs@),
    {
        self.x.mul(rhs.x).add(self.y.mul(rhs.y)).add(self.z.mul(rhs.z))
    }

    /// Squared magnitude; cheaper than `magnitude` when only comparing
    /// lengths.
    pub fn magnitude_squared(self) -> (r: Real)
        requires
            dot_fits(self@, self@),
        ensures
            r@ == v3_dot(self@, self@),
            r@ >= 0,
    {
        proof {
            lemma_v3_dot_self_nonneg(self@);
        }
        self.dot(self)
    }

    /// Magnitude (Euclidean length).
    pub fn magnitude(self) -> (r: Real)
        requires
            dot_fits(self@, self@),
        ensures
            r@ == v3_magnitude(self@),
            r@ >= 0,
    {
        self.magnitude_squared().sqrt()
    }

    /// The unit vector with this vector's direction, or zero when the
    /// squared magnitude is not above the scalar's resolution.
    pub fn normalized(self) -> (r: Vec3)
        requires
            normalized_fits(self@),
        ensures
            r@ == v3_normalized(self@),
    {
        let mag_sq = self.magnitude_squared();
        if mag_sq.raw > 0 {
            proof {
                crate::precision::lemma_sqrt_raw_positive(mag_sq@);
            }
            let inv_mag = Real::one().div(mag_sq.sqrt());
            self.scale(inv_mag)
        } else {
            Vec3::zero()
        }
    }

    /// Normalize in place; see `normalized`.
    pub fn normalize(&mut self)
        requires
            normalized_fits(old(self)@),
        ensures
            final(self)@ == v3_normalized(old(self)@),
    {
        let v = *self;
        *self = v.normalized();
    }

    /// Add `other * scale`, the fused update at the core of the integrator.
    pub fn add_scaled(&mut self, other: Vec3, scale: Real)
        requires
            scale_fits(other@, scale@),
            add_fits(old(self)@, v3_scale(other@, scale@)),
        ensures
            final(self)@ == v3_add(old(self)@, v3_scale(other@, scale@)),
    {
        let v = *self;
        *self = v.add(other.scale(scale));
    }

    /// Zero all components.
    pub fn clear(&mut self)
        ensures
            final(self)@ == v3_zero(),
    {
        *self = Vec3::zero();
    }

    /// Flip all components.
    pub fn invert(&mut self)
        requires
            neg_fits(old(self)@),
        ensures
            final(self)@ == v3_neg(old(self)@),
    {
        let v = *self;
        *self = Vec3 { x: v.x.neg(), y: v.y.neg(), z: v.z.neg() };
    }

    /// Cross product.
    pub fn cross(self, rhs: Vec3) -> (r: Vec3)
        requires
            cross_fits(self@, rhs@),
        ensures
            r@ == v3_cross(self@, rhs@),
    {
        Vec3 {
            x: self.y.mul(rhs.z).sub(self.z.mul(rhs.y)),
            y: self.z.mul(rhs.x).sub(self.x.mul(rhs.z)),
            z: self.x.mul(rhs.y).sub(self.y.mul(rhs.x)),
        }
    }
}

/// Whether building an orthonormal basis from `a` and `b` stays
/// representable at every intermediate step.
pub open spec fn basis_fits(a: V3, b: V3) -> bool {
    let x = v3_normalized(a);
    let z0 = v3_cross(x, b);
    let z = v3_normalized(z0);
    &&& normalized_fits(a)
    &&& cross_fits(x, b)
    &&& normalized_fits(z0)
    &&& cross_fits(z, x)
}

/// An orthonormal basis whose first axis has the direction of `a` and whose
/// third is perpendicular to both inputs; fails when the inputs are
/// (near-)parallel, which shows as a degenerate cross product.
pub fn make_orthonormal_basis(a: &Vec3, b: &Vec3) -> (r: Result<(Vec3, Vec3, Vec3), MathError>)
    requires
        basis_fits(a@, b@),
    ensures
        ({
            let x = v3_normalized(a@);
            let z0 = v3_cross(x, b@);
            match r {
                Result::Err(e) => e == MathError::OrthonormalBasisError && v3_dot(z0, z0) <= 0,
                Result::Ok(axes) => {
                    &&& v3_dot(z0, z0) > 0
                    &&& axes.0@ == x
                    &&& axes.2@ == v3_normalized(z0)
                    &&& axes.1@ == v3_cross(v3_normalized(z0), x)
                },
            }
        }),
{
    let x = a.normalized();
    let z0 = x.cross(*b);
    let z0_mag_sq = z0.magnitude_squared();
    if z0_mag_sq.raw <= 0 {
        return Err(MathError::OrthonormalBasisError);
    }
    let z = z0.normalized();
    let y = z.cross(x);
    Ok((x, y, z))
}

} // verus!
