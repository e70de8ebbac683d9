//! The scalar type of the library.
//!
//! `Real` is a deterministic fixed-point scalar: an `i64` count of units of
//! `1 / SCALE`. Multiplication, division, square root and exponentiation are
//! defined exactly by the spec functions of this module, so every contract in
//! the crate pins its numeric result down to the unit.

use vstd::arithmetic::div_mod::{
    lemma_div_is_ordered, lemma_div_is_ordered_by_denominator, lemma_div_pos_is_pos,
};
use vstd::arithmetic::mul::{
    lemma_mul_inequality, lemma_mul_nonnegative, lemma_mul_strictly_positive,
};
use vstd::prelude::*;

verus! {

/// Raw units per 1.0: scalars carry six decimal places.
pub const SCALE: i64 = 1_000_000;

/// How many binary digits of the exponent's fractional part `Real::pow`
/// honours.
pub const POW_FRAC_ITERS: u64 = 20;

/// Absolute value of a mathematical integer.
pub open spec fn abs_i(a: int) -> int {
    if a >= 0 {
        a
    } else {
        -a
    }
}

/// Truncating (round-toward-zero) division; meaningful for `b != 0`.
pub open spec fn tdiv(a: int, b: int) -> int {
    if (a >= 0) == (b >= 0) {
        abs_i(a) / abs_i(b)
    } else {
        -(abs_i(a) / abs_i(b))
    }
}

/// The raw value of the product of two scalars.
pub open spec fn smul(a: int, b: int) -> int {
    tdiv(a * b, SCALE as int)
}

/// The raw value of the quotient of two scalars; meaningful for `b != 0`.
pub open spec fn sdiv(a: int, b: int) -> int {
    tdiv(a * (SCALE as int), b)
}

/// Whether a mathematical integer fits the raw `i64` representation.
pub open spec fn in_raw(a: int) -> bool {
    i64::MIN <= a <= i64::MAX
}

/// Floor of the square root of a natural number.
pub open spec fn isqrt_spec(n: nat) -> nat
    decreases n,
{
    if n < 1 {
        0
    } else if n < 4 {
        1
    } else {
        let r = 2 * isqrt_spec(n / 4);
        if (r + 1) * (r + 1) <= n {
            r + 1
        } else {
            r
        }
    }
}

/// The raw value of the square root of a nonnegative scalar:
/// `floor(sqrt(a * SCALE))` raw units.
pub open spec fn sqrt_raw(a: int) -> int {
    isqrt_spec((a * (SCALE as int)) as nat) as int
}

/// `b^n` with every product truncated like `Real::mul`, in raw units.
pub open spec fn pow_units(b: int, n: nat) -> int
    decreases n,
{
    if n == 0 {
        SCALE as int
    } else {
        smul(pow_units(b, (n - 1) as nat), b)
    }
}

/// `acc * t^(rem / SCALE)` refined through `k` more halvings of the exponent:
/// each step replaces `t` by its square root and multiplies it in when the
/// leading binary digit of the remaining fraction is set.
pub open spec fn pow_frac(acc: int, t: int, rem: nat, k: nat) -> int
    decreases k,
{
    if k == 0 {
        acc
    } else {
        let t2 = sqrt_raw(t);
        let rem2 = 2 * rem;
        if rem2 >= SCALE as nat {
            pow_frac(smul(acc, t2), t2, (rem2 - SCALE as nat) as nat, (k - 1) as nat)
        } else {
            pow_frac(acc, t2, rem2, (k - 1) as nat)
        }
    }
}

/// `b^e` for a base in `[0, 1]` and a nonnegative exponent, exactly as
/// `Real::pow` computes it.
pub open spec fn pow_spec(b: int, e: int) -> int {
    pow_frac(
        pow_units(b, (e / (SCALE as int)) as nat),
        b,
        (e % (SCALE as int)) as nat,
        POW_FRAC_ITERS as nat,
    )
}

/// A truncated product of scalars in `[0, 1]` stays in `[0, 1]`.
pub proof fn lemma_smul_unit_range(a: int, b: int)
    requires
        0 <= a <= SCALE as int,
        0 <= b <= SCALE as int,
    ensures
        0 <= smul(a, b) <= SCALE as int,
{
    lemma_mul_nonnegative(a, b);
    lemma_mul_inequality(a, SCALE as int, b);
    lemma_mul_inequality(b, SCALE as int, SCALE as int);
    lemma_div_is_ordered(a * b, SCALE as int * SCALE as int, SCALE as int);
    assert(1_000_000_000_000int / 1_000_000 == 1_000_000);
}

/// The square root of a scalar in `[0, 1]` stays in `[0, 1]`.
pub proof fn lemma_sqrt_raw_unit_range(a: int)
    requires
        0 <= a <= SCALE as int,
    ensures
        0 <= sqrt_raw(a) <= SCALE as int,
{
    let nn = (a * (SCALE as int)) as nat;
    lemma_mul_nonnegative(a, SCALE as int);
    lemma_mul_inequality(a, SCALE as int, SCALE as int);
    lemma_isqrt_bracket(nn);
    assert(isqrt_spec(nn) * isqrt_spec(nn) <= (1_000_000nat + 1) * (1_000_000nat + 1) - 1) by (
    nonlinear_arith)
        requires
            isqrt_spec(nn) * isqrt_spec(nn) <= nn,
            nn <= 1_000_000_000_000nat,
    ;
    lemma_square_bound(isqrt_spec(nn), 1_000_000);
}

/// A scalar of at least one raw unit has a positive square root.
pub proof fn lemma_sqrt_raw_positive(a: int)
    requires
        a >= 1,
    ensures
        sqrt_raw(a) >= 1,
{
    let nn = (a * (SCALE as int)) as nat;
    lemma_mul_inequality(1, a, SCALE as int);
    lemma_isqrt_bracket(nn);
    if isqrt_spec(nn) == 0 {
        assert(nn < 1) by (nonlinear_arith)
            requires
                isqrt_spec(nn) == 0,
                nn < (isqrt_spec(nn) + 1) * (isqrt_spec(nn) + 1),
        ;
    }
}

/// The reciprocal of a scalar of at least one raw unit stays representable.
pub proof fn lemma_recip_in_raw(m: int)
    requires
        m >= 1,
    ensures
        0 <= sdiv(SCALE as int, m) <= 1_000_000_000_000,
{
    lemma_div_pos_is_pos(1_000_000_000_000, m);
    lemma_div_is_ordered_by_denominator(1_000_000_000_000, 1, m);
}

/// A bound on a truncated product from bounds on its factors.
pub proof fn lemma_smul_abs_bound(a: int, b: int, cap_a: int, cap_b: int)
    requires
        abs_i(a) <= cap_a,
        abs_i(b) <= cap_b,
        0 <= cap_a,
        0 <= cap_b,
    ensures
        abs_i(smul(a, b)) <= (cap_a * cap_b) / (SCALE as int),
{
    lemma_abs_mul(a, b);
    lemma_mul_inequality(abs_i(a), cap_a, abs_i(b));
    lemma_mul_inequality(abs_i(b), cap_b, cap_a);
    vstd::arithmetic::mul::lemma_mul_is_commutative(cap_a, abs_i(b));
    vstd::arithmetic::mul::lemma_mul_is_commutative(cap_b, cap_a);
    lemma_mul_nonnegative(abs_i(a), abs_i(b));
    lemma_div_is_ordered(abs_i(a) * abs_i(b), cap_a * cap_b, SCALE as int);
    lemma_div_pos_is_pos(abs_i(a) * abs_i(b), SCALE as int);
}

/// An integer power of a scalar in `[0, 1]` stays in `[0, 1]`.
pub proof fn lemma_pow_units_range(b: int, n: nat)
    requires
        0 <= b <= SCALE as int,
    ensures
        0 <= pow_units(b, n) <= SCALE as int,
    decreases n,
{
    if n == 0 {
    } else {
        lemma_pow_units_range(b, (n - 1) as nat);
        lemma_smul_unit_range(pow_units(b, (n - 1) as nat), b);
    }
}

/// The square-root chain keeps a unit-range accumulator and base in range.
pub proof fn lemma_pow_frac_range(acc: int, t: int, rem: nat, k: nat)
    requires
        0 <= acc <= SCALE as int,
        0 <= t <= SCALE as int,
    ensures
        0 <= pow_frac(acc, t, rem, k) <= SCALE as int,
    decreases k,
{
    if k > 0 {
        let t2 = sqrt_raw(t);
        lemma_sqrt_raw_unit_range(t);
        let rem2 = 2 * rem;
        if rem2 >= SCALE as nat {
            lemma_smul_unit_range(acc, t2);
            lemma_pow_frac_range(smul(acc, t2), t2, (rem2 - SCALE as nat) as nat, (k - 1) as nat);
        } else {
            lemma_pow_frac_range(acc, t2, rem2, (k - 1) as nat);
        }
    }
}

/// A power of a scalar in `[0, 1]` with a nonnegative exponent stays in
/// `[0, 1]`.
pub proof fn lemma_pow_spec_range(b: int, e: int)
    requires
        0 <= b <= SCALE as int,
        e >= 0,
    ensures
        0 <= pow_spec(b, e) <= SCALE as int,
{
    lemma_pow_units_range(b, (e / (SCALE as int)) as nat);
    lemma_pow_frac_range(
        pow_units(b, (e / (SCALE as int)) as nat),
        b,
        (e % (SCALE as int)) as nat,
        POW_FRAC_ITERS as nat,
    );
}

/// Multiplying a scalar by one is exact: no unit is lost to truncation.
pub proof fn lemma_smul_one(a: int)
    ensures
        smul(a, SCALE as int) == a,
{
    lemma_abs_mul(a, SCALE as int);
    vstd::arithmetic::div_mod::lemma_div_multiples_vanish(abs_i(a), SCALE as int);
    assert((SCALE as int) * abs_i(a) == abs_i(a) * (SCALE as int)) by (nonlinear_arith);
}

/// The square root of one is one, exactly.
proof fn lemma_sqrt_raw_one()
    ensures
        sqrt_raw(SCALE as int) == SCALE as int,
{
    assert(1_000_000nat * 1_000_000nat == 1_000_000_000_000nat) by (nonlinear_arith);
    assert((1_000_000nat + 1) * (1_000_000nat + 1) == 1_000_002_000_001nat) by (nonlinear_arith);
    lemma_isqrt_unique(1_000_000_000_000, 1_000_000);
}

/// One to any whole number of units is one, exactly.
proof fn lemma_pow_units_one_base(n: nat)
    ensures
        pow_units(SCALE as int, n) == SCALE as int,
    decreases n,
{
    if n > 0 {
        lemma_pow_units_one_base((n - 1) as nat);
        assert(1_000_000_000_000int / 1_000_000 == 1_000_000);
    }
}

/// The square-root chain leaves an accumulator of one at one, exactly.
proof fn lemma_pow_frac_one(acc: int, rem: nat, k: nat)
    requires
        acc == SCALE as int,
    ensures
        pow_frac(acc, SCALE as int, rem, k) == SCALE as int,
    decreases k,
{
    if k > 0 {
        lemma_sqrt_raw_one();
        assert(1_000_000_000_000int / 1_000_000 == 1_000_000);
        let rem2 = 2 * rem;
        if rem2 >= SCALE as nat {
            lemma_pow_frac_one(smul(acc, SCALE as int), (rem2 - SCALE as nat) as nat, (k - 1) as nat);
        } else {
            lemma_pow_frac_one(acc, rem2, (k - 1) as nat);
        }
    }
}

/// A damping factor of one is exactly neutral at every step length: one to
/// any nonnegative power is one. This is the fragment of frame-rate
/// independence that holds exactly under fixed-point rounding; for other
/// factors, one step of `2d` and two steps of `d` agree only up to the
/// truncation of each product and square root.
pub proof fn lemma_pow_one_base(e: int)
    requires
        e >= 0,
    ensures
        pow_spec(SCALE as int, e) == SCALE as int,
{
    lemma_pow_units_one_base((e / (SCALE as int)) as nat);
    lemma_pow_frac_one(
        pow_units(SCALE as int, (e / (SCALE as int)) as nat),
        (e % (SCALE as int)) as nat,
        POW_FRAC_ITERS as nat,
    );
}

/// The scalar type: a fixed-point count of `1 / SCALE` units.
#[derive(Clone, Copy, Debug, PartialEq, Eq, Structural)]
pub struct Real {
    pub raw: i64,
}

impl View for Real {
    type V = int;

    open spec fn view(&self) -> int {
        self.raw as int
    }
}

proof fn lemma_abs_mul(a: int, b: int)
    ensures
        abs_i(a * b) == abs_i(a) * abs_i(b),
        ((a < 0) != (b < 0)) ==> a * b <= 0,
        !((a < 0) != (b < 0)) ==> a * b >= 0,
{
    if a >= 0 && b >= 0 {
        lemma_mul_nonnegative(a, b);
    } else if a < 0 && b < 0 {
        lemma_mul_strictly_positive(-a, -b);
        assert((-a) * (-b) == a * b) by (nonlinear_arith);
    } else if a < 0 {
        lemma_mul_nonnegative(-a, b);
        assert((-a) * b == -(a * b)) by (nonlinear_arith);
    } else {
        lemma_mul_nonnegative(a, -b);
        assert(a * (-b) == -(a * b)) by (nonlinear_arith);
    }
}

/// The absolute value of a raw scalar, wide enough to hold `|i64::MIN|`.
fn abs_u128(x: i64) -> (r: u128)
    ensures
        r as int == abs_i(x as int),
{
    if x >= 0 {
        x as u128
    } else {
        let w: i128 = -(x as i128);
        w as u128
    }
}

impl Real {
    /// The scalar with the given raw representation.
    pub fn from_raw(raw: i64) -> (r: Real)
        ensures
            r@ == raw as int,
    {
        Real { raw }
    }

    /// The raw representation.
    pub fn raw(self) -> (r: i64)
        ensures
            r as int == self@,
    {
        self.raw
    }

    /// The scalar 0.
    pub fn zero() -> (r: Real)
        ensures
            r@ == 0,
    {
        Real { raw: 0 }
    }

    /// The scalar 1.
    pub fn one() -> (r: Real)
        ensures
            r@ == SCALE as int,
    {
        Real { raw: SCALE }
    }

    /// The largest representable scalar, used as the "infinite mass" sentinel.
    pub fn max_value() -> (r: Real)
        ensures
            r@ == i64::MAX as int,
    {
        Real { raw: i64::MAX }
    }

    /// Exact sum.
    pub fn add(self, rhs: Real) -> (r: Real)
        requires
            in_raw(self@ + rhs@),
        ensures
            r@ == self@ + rhs@,
    {
        Real { raw: self.raw + rhs.raw }
    }

    /// Exact difference.
    pub fn sub(self, rhs: Real) -> (r: Real)
        requires
            in_raw(self@ - rhs@),
        ensures
            r@ == self@ - rhs@,
    {
        Real { raw: self.raw - rhs.raw }
    }

    /// Exact negation.
    pub fn neg(self) -> (r: Real)
        requires
            in_raw(-self@),
        ensures
            r@ == -self@,
    {
        Real { raw: -self.raw }
    }

    /// Scaled product, truncated toward zero.
    pub fn mul(self, rhs: Real) -> (r: Real)
        requires
            in_raw(smul(self@, rhs@)),
        ensures
            r@ == smul(self@, rhs@),
    {
        let negative: bool = (self.raw < 0) != (rhs.raw < 0);
        let ua: u128 = abs_u128(self.raw);
        let ub: u128 = abs_u128(rhs.raw);
        proof {
            lemma_abs_mul(self@, rhs@);
            assert(ua as int * ub as int <= 0x8000_0000_0000_0000 * 0x8000_0000_0000_0000)
                by (nonlinear_arith)
                requires
                    0 <= ua as int <= 0x8000_0000_0000_0000,
                    0 <= ub as int <= 0x8000_0000_0000_0000,
            ;
        }
        let p: u128 = ua * ub;
        let q: u128 = p / 1_000_000u128;
        proof {
            lemma_div_is_ordered(0, p as int, 1_000_000);
        }
        if negative {
            let qi: i128 = -(q as i128);
            Real { raw: qi as i64 }
        } else {
            Real { raw: q as i64 }
        }
    }

    /// Scaled quotient, truncated toward zero.
    pub fn div(self, rhs: Real) -> (r: Real)
        requires
            rhs@ != 0,
            in_raw(sdiv(self@, rhs@)),
        ensures
            r@ == sdiv(self@, rhs@),
    {
        let negative: bool = (self.raw < 0) != (rhs.raw < 0);
        let ua: u128 = abs_u128(self.raw);
        let ub: u128 = abs_u128(rhs.raw);
        proof {
            lemma_abs_mul(self@, SCALE as int);
            lemma_mul_inequality(ua as int, 0x8000_0000_0000_0000, SCALE as int);
        }
        let p: u128 = ua * 1_000_000u128;
        let q: u128 = p / ub;
        proof {
            assert(abs_i(self@ * (SCALE as int)) / abs_i(rhs@) == p as int / ub as int);
            lemma_div_is_ordered(0, p as int, ub as int);
            assert(((self@ * (SCALE as int)) >= 0) == (self@ >= 0)) by {
                lemma_abs_mul(self@, SCALE as int);
            }
        }
        if negative {
            let qi: i128 = -(q as i128);
            Real { raw: qi as i64 }
        } else {
            Real { raw: q as i64 }
        }
    }

    /// Square root of a nonnegative scalar, truncated to the unit.
    pub fn sqrt(self) -> (r: Real)
        requires
            self@ >= 0,
        ensures
            r@ == sqrt_raw(self@),
            r@ >= 0,
    {
        proof {
            lemma_mul_inequality(self@, i64::MAX as int, SCALE as int);
            lemma_mul_nonnegative(self@, SCALE as int);
            assert(i64::MAX as int * (SCALE as int) < 0x40_0000_0000_0000_0000_0000);
        }
        let n: u128 = (self.raw as u128) * 1_000_000u128;
        let root: u128 = isqrt_u128(n);
        proof {
            let nn = (self@ * (SCALE as int)) as nat;
            lemma_isqrt_bracket(nn);
            assert((root as nat) * (root as nat) < 0x40_0000_0000_0000_0000_0000) by (
            nonlinear_arith)
                requires
                    root as nat == isqrt_spec(nn),
                    isqrt_spec(nn) * isqrt_spec(nn) <= nn,
                    nn < 0x40_0000_0000_0000_0000_0000,
            ;
            assert((root as nat) * (root as nat) <= (0x7FF_FFFF_FFFFnat + 1) * (
            0x7FF_FFFF_FFFFnat + 1) - 1) by (nonlinear_arith)
                requires
                    (root as nat) * (root as nat) < 0x40_0000_0000_0000_0000_0000nat,
            ;
            lemma_square_bound(root as nat, 0x7FF_FFFF_FFFF);
        }
        Real { raw: root as i64 }
    }

    /// `self^exp` for a base in `[0, 1]` and a nonnegative exponent: the
    /// integer part of the exponent by repeated multiplication, its
    /// fraction by a binary chain of square roots.
    pub fn pow(self, exp: Real) -> (r: Real)
        requires
            0 <= self@ <= SCALE as int,
            exp@ >= 0,
        ensures
            r@ == pow_spec(self@, exp@),
            0 <= r@ <= SCALE as int,
    {
        let e: u64 = exp.raw as u64;
        let whole: u64 = e / 1_000_000u64;
        let mut rem: u64 = e % 1_000_000u64;
        let mut acc: Real = Real::one();
        let mut i: u64 = 0;
        while i < whole
            invariant
                0 <= self@ <= SCALE as int,
                i <= whole,
                acc@ == pow_units(self@, i as nat),
                0 <= acc@ <= SCALE as int,
            decreases whole - i,
        {
            proof {
                lemma_smul_unit_range(acc@, self@);
            }
            acc = acc.mul(self);
            i = i + 1;
            proof {
                assert(acc@ == pow_units(self@, i as nat));
            }
        }
        let mut t: Real = self;
        let mut k: u64 = 0;
        proof {
            assert(whole as nat == (exp@ / (SCALE as int)) as nat);
            assert(rem as nat == (exp@ % (SCALE as int)) as nat);
        }
        while k < POW_FRAC_ITERS
            invariant
                k <= POW_FRAC_ITERS,
                rem < 1_000_000,
                0 <= t@ <= SCALE as int,
                0 <= acc@ <= SCALE as int,
                pow_frac(acc@, t@, rem as nat, (POW_FRAC_ITERS - k) as nat) == pow_spec(
                    self@,
                    exp@,
                ),
            decreases POW_FRAC_ITERS - k,
        {
            proof {
                lemma_sqrt_raw_unit_range(t@);
            }
            let t2 = t.sqrt();
            let rem2: u64 = rem * 2;
            if rem2 >= 1_000_000 {
                rem = rem2 - 1_000_000;
                proof {
                    lemma_smul_unit_range(acc@, t2@);
                }
                acc = acc.mul(t2);
            } else {
                rem = rem2;
            }
            t = t2;
            k = k + 1;
        }
        acc
    }
}

/// If `r * r <= n` and `n < (bound + 1)^2` then `r <= bound`.
proof fn lemma_square_bound(r: nat, bound: nat)
    requires
        r * r <= (bound + 1) * (bound + 1) - 1,
    ensures
        r <= bound,
{
    if r > bound {
        lemma_mul_inequality(bound as int + 1, r as int, bound as int + 1);
        lemma_mul_inequality(bound as int + 1, r as int, r as int);
    }
}

/// `isqrt_spec(n)` really is the floor of the square root.
proof fn lemma_isqrt_bracket(n: nat)
    ensures
        isqrt_spec(n) * isqrt_spec(n) <= n,
        n < (isqrt_spec(n) + 1) * (isqrt_spec(n) + 1),
    decreases n,
{
    if n < 1 {
        assert(isqrt_spec(n) * isqrt_spec(n) <= n) by (nonlinear_arith)
            requires
                isqrt_spec(n) == 0,
                n == 0,
        ;
        assert(n < (isqrt_spec(n) + 1) * (isqrt_spec(n) + 1)) by (nonlinear_arith)
            requires
                isqrt_spec(n) == 0,
                n == 0,
        ;
    } else if n < 4 {
        assert(isqrt_spec(n) == 1);
        assert(isqrt_spec(n) * isqrt_spec(n) <= n) by (nonlinear_arith)
            requires
                isqrt_spec(n) == 1,
                1 <= n,
        ;
        assert(n < (isqrt_spec(n) + 1) * (isqrt_spec(n) + 1)) by (nonlinear_arith)
            requires
                isqrt_spec(n) == 1,
                n < 4,
        ;
    } else {
        lemma_isqrt_bracket(n / 4);
        let s = isqrt_spec(n / 4);
        let r = 2 * s;
        assert(4 * (s * s) <= 4 * (n / 4)) by (nonlinear_arith)
            requires
                s * s <= n / 4,
        ;
        assert(r * r == 4 * (s * s)) by (nonlinear_arith)
            requires
                r == 2 * s,
        ;
        assert(4 * (n / 4) <= n && n < 4 * (n / 4) + 4) by {
            vstd::arithmetic::div_mod::lemma_fundamental_div_mod(n as int, 4);
        }
        assert(4 * ((s + 1) * (s + 1)) == (r + 2) * (r + 2)) by (nonlinear_arith)
            requires
                r == 2 * s,
        ;
        assert(4 * (n / 4) + 4 <= 4 * ((s + 1) * (s + 1))) by (nonlinear_arith)
            requires
                n / 4 < (s + 1) * (s + 1),
        ;
        assert(isqrt_spec(n) == if (r + 1) * (r + 1) <= n {
            r + 1
        } else {
            r
        }) by {
            reveal_with_fuel(isqrt_spec, 2);
        }
        assert(r * r <= n);
        assert(n < (r + 2) * (r + 2));
        let q = isqrt_spec(n);
        if (r + 1) * (r + 1) <= n {
            assert(q * q == (r + 1) * (r + 1)) by (nonlinear_arith)
                requires
                    q == r + 1,
            ;
            assert((q + 1) * (q + 1) == (r + 2) * (r + 2)) by (nonlinear_arith)
                requires
                    q == r + 1,
            ;
        } else {
            assert(q * q == r * r) by (nonlinear_arith)
                requires
                    q == r,
            ;
            assert((q + 1) * (q + 1) == (r + 1) * (r + 1)) by (nonlinear_arith)
                requires
                    q == r,
            ;
        }
        assert(isqrt_spec(n) * isqrt_spec(n) <= n) by (nonlinear_arith)
            requires
                isqrt_spec(n) == q,
                q * q <= n,
        ;
        assert(n < (isqrt_spec(n) + 1) * (isqrt_spec(n) + 1)) by (nonlinear_arith)
            requires
                isqrt_spec(n) == q,
                n < (q + 1) * (q + 1),
        ;
    }
}

/// The floor square root is the only natural number whose square brackets `n`.
proof fn lemma_isqrt_unique(n: nat, r: nat)
    requires
        r * r <= n,
        n < (r + 1) * (r + 1),
    ensures
        r == isqrt_spec(n),
{
    lemma_isqrt_bracket(n);
    let s = isqrt_spec(n);
    if r < s {
        lemma_mul_inequality(r as int + 1, s as int, r as int + 1);
        lemma_mul_inequality(r as int + 1, s as int, s as int);
    }
    if s < r {
        lemma_mul_inequality(s as int + 1, r as int, s as int + 1);
        lemma_mul_inequality(s as int + 1, r as int, r as int);
    }
}

/// Floor square root by bisection.
fn isqrt_u128(n: u128) -> (r: u128)
    requires
        n < 0x40_0000_0000_0000_0000_0000,
    ensures
        r as int == isqrt_spec(n as nat),
{
    let mut lo: u128 = 0;
    let mut hi: u128 = 0x8000_0000_000u128;
    proof {
        assert(0x8000_0000_000int * 0x8000_0000_000 == 0x40_0000_0000_0000_0000_0000);
    }
    while lo + 1 < hi
        invariant
            lo < hi <= 0x8000_0000_000u128,
            (lo as int) * (lo as int) <= n as int,
            (n as int) < (hi as int) * (hi as int),
        decreases hi - lo,
    {
        let mid: u128 = lo + (hi - lo) / 2;
        proof {
            assert(mid as int * mid as int <= 0x8000_0000_000int * 0x8000_0000_000) by (
            nonlinear_arith)
                requires
                    0 <= mid as int <= 0x8000_0000_000,
            ;
        }
        let sq: u128 = mid * mid;
        if sq <= n {
            lo = mid;
        } else {
            hi = mid;
        }
    }
    proof {
        lemma_isqrt_unique(n as nat, lo as nat);
    }
    lo
}

} // verus!
