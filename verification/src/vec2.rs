//! 2D vectors over the fixed-point scalar.
//!
//! Every operation's contract states the exact componentwise result through
//! the `v2_*` spec functions; `requires` clauses only keep the raw `i64`
//! representation from overflowing.

use crate::precision::{in_raw, sdiv, smul, sqrt_raw, Real, SCALE};
use vstd::arithmetic::div_mod::lemma_div_pos_is_pos;
use vstd::prelude::*;

verus! {

/// The mathematical value of a 2D vector: the two raw components.
pub ghost struct V2 {
    pub x: int,
    pub y: int,
}

/// The zero vector.
pub open spec fn v2_zero() -> V2 {
    V2 { x: 0, y: 0 }
}

/// Componentwise sum.
pub open spec fn v2_add(a: V2, b: V2) -> V2 {
    V2 { x: a.x + b.x, y: a.y + b.y }
}

/// Componentwise difference.
pub open spec fn v2_sub(a: V2, b: V2) -> V2 {
    V2 { x: a.x - b.x, y: a.y - b.y }
}

/// Componentwise negation.
pub open spec fn v2_neg(a: V2) -> V2 {
    V2 { x: -a.x, y: -a.y }
}

/// Uniform scale by a scalar.
pub open spec fn v2_scale(a: V2, s: int) -> V2 {
    V2 { x: smul(a.x, s), y: smul(a.y, s) }
}

/// Componentwise product.
pub open spec fn v2_cmul(a: V2, b: V2) -> V2 {
    V2 { x: smul(a.x, b.x), y: smul(a.y, b.y) }
}

/// Dot product.
pub open spec fn v2_dot(a: V2, b: V2) -> int {
    smul(a.x, b.x) + smul(a.y, b.y)
}

/// Magnitude: square root of the squared magnitude.
pub open spec fn v2_magnitude(a: V2) -> int {
    sqrt_raw(v2_dot(a, a))
}

/// The normalization guard: only a vector whose squared magnitude exceeds
/// the resolution of the scalar is scaled; anything shorter becomes zero.
pub open spec fn v2_normalized(a: V2) -> V2 {
    if v2_dot(a, a) > 0 {
        v2_scale(a, sdiv(SCALE as int, v2_magnitude(a)))
    } else {
        v2_zero()
    }
}

/// Whether a componentwise sum stays representable.
pub open spec fn add_fits(a: V2, b: V2) -> bool {
    in_raw(a.x + b.x) && in_raw(a.y + b.y)
}

/// Whether a componentwise difference stays representable.
pub open spec fn sub_fits(a: V2, b: V2) -> bool {
    in_raw(a.x - b.x) && in_raw(a.y - b.y)
}

/// Whether a componentwise negation stays representable.
pub open spec fn neg_fits(a: V2) -> bool {
    in_raw(-a.x) && in_raw(-a.y)
}

/// Whether a uniform scale stays representable.
pub open spec fn scale_fits(a: V2, s: int) -> bool {
    in_raw(smul(a.x, s)) && in_raw(smul(a.y, s))
}

/// Whether a componentwise product stays representable.
pub open spec fn cmul_fits(a: V2, b: V2) -> bool {
    in_raw(smul(a.x, b.x)) && in_raw(smul(a.y, b.y))
}

/// Whether a dot product and its partial sums stay representable.
pub open spec fn dot_fits(a: V2, b: V2) -> bool {
    &&& in_raw(smul(a.x, b.x))
    &&& in_raw(smul(a.y, b.y))
    &&& in_raw(smul(a.x, b.x) + smul(a.y, b.y))
    &&& in_raw(v2_dot(a, b))
}

/// Whether normalizing stays representable: the squared magnitude and, for a
/// vector long enough to be scaled, the scaled components.
pub open spec fn normalized_fits(a: V2) -> bool {
    &&& dot_fits(a, a)
    &&& (v2_dot(a, a) > 0 ==> scale_fits(a, sdiv(SCALE as int, v2_magnitude(a))))
}

/// A scalar times itself is never negative, so neither is its raw product.
pub proof fn lemma_smul_self_nonneg(a: int)
    ensures
        smul(a, a) >= 0,
{
    assert(a * a >= 0) by (nonlinear_arith);
    lemma_div_pos_is_pos(a * a, SCALE as int);
}

/// The squared magnitude of a vector is never negative.
pub proof fn lemma_v2_dot_self_nonneg(a: V2)
    ensures
        v2_dot(a, a) >= 0,
{
    lemma_smul_self_nonneg(a.x);
    lemma_smul_self_nonneg(a.y);
}

/// A vector whose squared magnitude is not above the scalar's resolution
/// normalizes to the zero vector — the guard that keeps a degenerate length
/// out of the scale factor.
pub proof fn lemma_normalized_degenerate(a: V2)
    requires
        v2_dot(a, a) <= 0,
    ensures
        v2_normalized(a) == v2_zero(),
{
}

/// The direction-preservation half of the unit-length property, in the
/// exact form this arithmetic supports: above the degenerate guard and up
/// to a million units of length, the normalized vector is the original
/// scaled by a strictly positive factor, so its direction is kept. (The
/// factor's closeness to the true reciprocal length is a tolerance claim
/// with no exact fixed-point statement.)
pub proof fn lemma_normalized_preserves_direction(a: V2)
    requires
        v2_dot(a, a) > 0,
        v2_magnitude(a) <= 1_000_000_000_000,
    ensures
        v2_normalized(a) == v2_scale(a, sdiv(SCALE as int, v2_magnitude(a))),
        sdiv(SCALE as int, v2_magnitude(a)) >= 1,
{
    crate::precision::lemma_sqrt_raw_positive(v2_dot(a, a));
    vstd::arithmetic::div_mod::lemma_div_is_ordered_by_denominator(
        1_000_000_000_000,
        v2_magnitude(a),
        1_000_000_000_000,
    );
    assert(1_000_000_000_000int / 1_000_000_000_000 == 1);
}

/// A 2D vector of fixed-point scalars.
#[derive(Clone, Copy, Debug, PartialEq, Eq, Structural)]
pub struct Vec2 {
    pub x: Real,
    pub y: Real,
}

impl View for Vec2 {
    type V = V2;

    open spec fn view(&self) -> V2 {
        V2 { x: self.x@, y: self.y@ }
    }
}

impl Vec2 {
    /// The vector with the given components.
    pub fn new(x: Real, y: Real) -> (r: Vec2)
        ensures
            r@ == (V2 { x: x@, y: y@ }),
    {
        Vec2 { x, y }
    }

    /// The zero vector.
    pub fn zero() -> (r: Vec2)
        ensures
            r@ == v2_zero(),
    {
        Vec2 { x: Real::zero(), y: Real::zero() }
    }

    /// Componentwise sum.
    pub fn add(self, rhs: Vec2) -> (r: Vec2)
        requires
            add_fits(self@, rhs@),
        ensures
            r@ == v2_add(self@, rhs@),
    {
        Vec2 { x: self.x.add(rhs.x), y: self.y.add(rhs.y) }
    }

    /// Componentwise difference.
    pub fn sub(self, rhs: Vec2) -> (r: Vec2)
        requires
            sub_fits(self@, rhs@),
        ensures
            r@ == v2_sub(self@, rhs@),
    {
        Vec2 { x: self.x.sub(rhs.x), y: self.y.sub(rhs.y) }
    }

    /// Uniform scale by a scalar.
    pub fn scale(self, s: Real) -> (r: Vec2)
        requires
            scale_fits(self@, s@),
        ensures
            r@ == v2_scale(self@, s@),
    {
        Vec2 { x: self.x.mul(s), y: self.y.mul(s) }
    }

    /// Componentwise product.
    pub fn component_product(self, rhs: Vec2) -> (r: Vec2)
        requires
            cmul_fits(self@, rhs@),
        ensures
            r@ == v2_cmul(self@, rhs@),
    {
        Vec2 { x: self.x.mul(rhs.x), y: self.y.mul(rhs.y) }
    }

    /// Dot product.
    pub fn dot(self, rhs: Vec2) -> (r: Real)
        requires
            dot_fits(self@, rhs@),
        ensures
            r@ == v2_dot(self@, rhs@),
    {
        self.x.mul(rhs.x).add(self.y.mul(rhs.y))
    }

    /// Squared magnitude; cheaper than `magnitude` when only comparing
    /// lengths.
    pub fn magnitude_squared(self) -> (r: Real)
        requires
            dot_fits(self@, self@),
        ensures
            r@ == v2_dot(self@, self@),
            r@ >= 0,
    {
        proof {
            lemma_v2_dot_self_nonneg(self@);
        }
        self.dot(self)
    }

    /// Magnitude (Euclidean length).
    pub fn magnitude(self) -> (r: Real)
        requires
            dot_fits(self@, self@),
        ensures
            r@ == v2_magnitude(self@),
            r@ >= 0,
    {
        self.magnitude_squared().sqrt()
    }

    /// The unit vector with this vector's direction, or zero when the
    /// squared magnitude is not above the scalar's resolution.
    pub fn normalized(self) -> (r: Vec2)
        requires
            normalized_fits(self@),
        ensures
            r@ == v2_normalized(self@),
    {
        let mag_sq = self.magnitude_squared();
        if mag_sq.raw > 0 {
            proof {
                crate::precision::lemma_sqrt_raw_positive(mag_sq@);
            }
            let inv_mag = Real::one().div(mag_sq.sqrt());
            self.scale(inv_mag)
        } else {
            Vec2::zero()
        }
    }

    /// Normalize in place; see `normalized`.
    pub fn normalize(&mut self)
        requires
            normalized_fits(old(self)@),
        ensures
            final(self)@ == v2_normalized(old(self)@),
    {
        let v = *self;
        *self = v.normalized();
    }

    /// Add `other * scale`, the fused update at the core of the integrator.
    pub fn add_scaled(&mut self, other: Vec2, scale: Real)
        requires
            scale_fits(other@, scale@),
            add_fits(old(self)@, v2_scale(other@, scale@)),
        ensures
            final(self)@ == v2_add(old(self)@, v2_scale(other@, scale@)),
    {
        let v = *self;
        *self = v.add(other.scale(scale));
    }

    /// Zero all components.
    pub fn clear(&mut self)
        ensures
            final(self)@ == v2_zero(),
    {
        *self = Vec2::zero();
    }

    /// Flip all components.
    pub fn invert(&mut self)
        requires
            neg_fits(old(self)@),
        ensures
            final(self)@ == v2_neg(old(self)@),
    {
        let v = *self;
        *self = Vec2 { x: v.x.neg(), y: v.y.neg() };
    }

}

} // verus!
