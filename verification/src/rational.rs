//! Exact rational numbers with saturating, fully specified arithmetic.
//!
//! Every numeric value that flows through a dice expression is one of these
//! rationals.  An operation first forms the exact mathematical result; when
//! that result does not fit within the representation bound it falls back to
//! its truncated integer part, clamped into the bound.  Each operation is
//! pinned, case by case, by a spec function, so callers know exactly which
//! value they receive for every input.

use vstd::prelude::*;

verus! {

/// Largest magnitude a stored numerator may take, and largest stored
/// denominator.  Chosen so that any product of two in-bound fields, and any
/// sum of two such products, still fits in `i128`.
pub const RAT_BOUND: i128 = 9223372036854775807;

/// Exponents are clamped to this magnitude before a power is computed.
pub const POW_CAP: i128 = 65536;

/// The mathematical value of a [`Rational`]: a numerator and a positive
/// denominator, unreduced.
pub struct Rat {
    pub num: int,
    pub den: int,
}

/// A well-formed mathematical value: positive denominator, both fields within
/// the representation bound.
pub open spec fn rat_wf(r: Rat) -> bool {
    &&& 1 <= r.den <= RAT_BOUND
    &&& -RAT_BOUND <= r.num <= RAT_BOUND
}

/// Two fractions denote the same rational number.
pub open spec fn rat_eqv(a: Rat, b: Rat) -> bool {
    a.num * b.den == b.num * a.den
}

/// `a <= b` as rational numbers (meaningful when both denominators are positive).
pub open spec fn rat_le(a: Rat, b: Rat) -> bool {
    a.num * b.den <= b.num * a.den
}

/// `a < b` as rational numbers (meaningful when both denominators are positive).
pub open spec fn rat_lt(a: Rat, b: Rat) -> bool {
    a.num * b.den < b.num * a.den
}

pub open spec fn rat_of_int(n: int) -> Rat {
    Rat { num: n, den: 1 }
}

pub open spec fn rat_zero() -> Rat {
    rat_of_int(0)
}

pub open spec fn rat_one() -> Rat {
    rat_of_int(1)
}

/// Integer division truncated toward zero, for a positive divisor.
pub open spec fn tdiv(n: int, d: int) -> int {
    if n >= 0 {
        n / d
    } else {
        -((-n) / d)
    }
}

pub open spec fn clamp_to_bound(n: int) -> int {
    if n < -RAT_BOUND {
        -RAT_BOUND as int
    } else if n > RAT_BOUND {
        RAT_BOUND as int
    } else {
        n
    }
}

/// Fit the exact fraction `n / d` (with `d >= 1`) into the representation:
/// zero is normalised, an in-bound fraction is kept as written, and anything
/// else falls back to its truncated integer part clamped into the bound.
pub open spec fn rat_clip(n: int, d: int) -> Rat {
    if n == 0 {
        rat_zero()
    } else if -RAT_BOUND <= n <= RAT_BOUND && d <= RAT_BOUND {
        Rat { num: n, den: d }
    } else {
        rat_of_int(clamp_to_bound(tdiv(n, d)))
    }
}

pub open spec fn rat_add(a: Rat, b: Rat) -> Rat {
    rat_clip(a.num * b.den + b.num * a.den, a.den * b.den)
}

pub open spec fn rat_sub(a: Rat, b: Rat) -> Rat {
    rat_clip(a.num * b.den - b.num * a.den, a.den * b.den)
}

pub open spec fn rat_neg(a: Rat) -> Rat {
    Rat { num: -a.num, den: a.den }
}

pub open spec fn rat_mul(a: Rat, b: Rat) -> Rat {
    rat_clip(a.num * b.num, a.den * b.den)
}

/// Division; a zero divisor yields zero (the one convention this library
/// adopts for an operation the mathematics leaves undefined).
pub open spec fn rat_div(a: Rat, b: Rat) -> Rat {
    if b.num == 0 {
        rat_zero()
    } else if b.num > 0 {
        rat_clip(a.num * b.den, a.den * b.num)
    } else {
        rat_clip(-(a.num * b.den), -(a.den * b.num))
    }
}

/// Remainder with the sign of the dividend: `a - b * q` where `q` is `a / b`
/// truncated toward zero (and clamped into the bound, as every stored integer
/// is).  A zero divisor yields zero.
pub open spec fn rat_rem(a: Rat, b: Rat) -> Rat {
    if b.num == 0 {
        rat_zero()
    } else {
        let q = if b.num > 0 {
            tdiv(a.num * b.den, a.den * b.num)
        } else {
            tdiv(-(a.num * b.den), -(a.den * b.num))
        };
        rat_sub(a, rat_mul(b, rat_clip(q, 1)))
    }
}

/// `a` multiplied into itself `k` times.
pub open spec fn rat_pow_n(a: Rat, k: nat) -> Rat
    decreases k,
{
    if k == 0 {
        rat_one()
    } else {
        rat_mul(rat_pow_n(a, (k - 1) as nat), a)
    }
}

/// The exponent actually used by a power: the right operand truncated toward
/// zero and clamped to `POW_CAP` in magnitude.
pub open spec fn pow_exponent(e: Rat) -> int {
    let n = tdiv(e.num, e.den);
    if n < -POW_CAP {
        -POW_CAP as int
    } else if n > POW_CAP {
        POW_CAP as int
    } else {
        n
    }
}

/// Raising to a rational power.  Beware: only integer exponents are raised
/// exactly.  The exponent is truncated toward zero (so a fractional
/// exponent does not take a root: `9^0.5` yields `9^0 == 1`) and clamped to
/// `POW_CAP`; a base equal to one or minus one is resolved by the
/// exponent's parity; a negative exponent inverts the positive power.
pub open spec fn rat_pow(a: Rat, e: Rat) -> Rat {
    let n = pow_exponent(e);
    if a.num == a.den {
        rat_one()
    } else if a.num == -a.den {
        if n % 2 == 0 {
            rat_one()
        } else {
            rat_of_int(-1)
        }
    } else if n >= 0 {
        rat_pow_n(a, n as nat)
    } else {
        rat_div(rat_one(), rat_pow_n(a, (-n) as nat))
    }
}

/// A rational truncated toward zero and clamped into `[0, u32::MAX]`, the way
/// dice counts and face counts are read from operand values.
pub open spec fn rat_to_u32(r: Rat) -> int {
    if r.num <= 0 {
        0
    } else if r.num / r.den > u32::MAX {
        u32::MAX as int
    } else {
        r.num / r.den
    }
}

/// Bounds on a product follow from bounds on its factors.
pub proof fn lemma_mul_bound(x: int, y: int, bx: int, by: int)
    by (nonlinear_arith)
    requires
        -bx <= x <= bx,
        -by <= y <= by,
        0 <= bx,
        0 <= by,
    ensures
        -(bx * by) <= x * y <= bx * by,
{
}

/// The product of two numbers at least one is itself at least one.
pub proof fn lemma_pos_mul(x: int, y: int)
    by (nonlinear_arith)
    requires
        x >= 1,
        y >= 1,
    ensures
        x * y >= 1,
{
}

/// A product of nonnegative numbers is nonnegative.
pub proof fn lemma_nonneg_mul(x: int, y: int)
    by (nonlinear_arith)
    requires
        0 <= x,
        0 <= y,
    ensures
        0 <= x * y,
{
}

/// Multiplying by at least one does not shrink a nonnegative number.
pub proof fn lemma_mul_ge_self(x: int, y: int)
    by (nonlinear_arith)
    requires
        0 <= x,
        1 <= y,
    ensures
        x <= x * y,
{
}

/// A positive times a negative is at most minus one.
pub proof fn lemma_pos_neg_mul(x: int, y: int)
    by (nonlinear_arith)
    requires
        x >= 1,
        y <= -1,
    ensures
        x * y <= -1,
{
}

/// A number and its negation have the same parity.
pub proof fn lemma_parity_of_negation(n: int)
    by (nonlinear_arith)
    ensures
        (n % 2 == 0) <==> ((-n) % 2 == 0),
{
}

/// A quotient truncated toward zero never exceeds its dividend in magnitude.
pub proof fn lemma_tdiv_bound(n: int, d: int)
    requires
        1 <= d,
    ensures
        n >= 0 ==> 0 <= tdiv(n, d) <= n,
        n < 0 ==> n <= tdiv(n, d) <= 0,
{
    if n >= 0 {
        assert(0 <= n / d <= n) by (nonlinear_arith)
            requires
                n >= 0 && d >= 1,
        ;
    } else {
        assert(0 <= (-n) / d <= -n) by (nonlinear_arith)
            requires
                n < 0 && d >= 1,
        ;
    }
}

/// Every clipped fraction is well formed.
pub proof fn lemma_rat_clip_wf(n: int, d: int)
    requires
        1 <= d,
    ensures
        rat_wf(rat_clip(n, d)),
{
    lemma_tdiv_bound(n, d);
}

/// Exact rational numbers, stored as a numerator and positive denominator,
/// both held within `RAT_BOUND`.
#[derive(Debug, Clone, Copy, PartialEq, Eq, Structural)]
pub struct Rational {
    num: i128,
    den: i128,
}

impl View for Rational {
    type V = Rat;

    closed spec fn view(&self) -> Rat {
        Rat { num: self.num as int, den: self.den as int }
    }
}

#[verifier::type_invariant]
spec fn rational_inv(r: Rational) -> bool {
    rat_wf(r@)
}

/// Division of nonnegative values, computed through the unsigned machine type.
fn div_nonneg(n: i128, d: i128) -> (q: i128)
    requires
        0 <= n,
        1 <= d,
    ensures
        q == n as int / d as int,
{
    proof {
        lemma_tdiv_bound(n as int, d as int);
    }
    ((n as u128) / (d as u128)) as i128
}

/// Truncated division for a positive divisor, any sign of dividend.
fn div_trunc(n: i128, d: i128) -> (q: i128)
    requires
        1 <= d,
        n > i128::MIN,
    ensures
        q == tdiv(n as int, d as int),
{
    proof {
        lemma_tdiv_bound(n as int, d as int);
    }
    if n >= 0 {
        div_nonneg(n, d)
    } else {
        -div_nonneg(-n, d)
    }
}

impl Rational {
    /// The exact fraction `n / d`, clipped into the representation.
    fn clip(n: i128, d: i128) -> (r: Rational)
        requires
            1 <= d,
            n > i128::MIN,
        ensures
            r@ == rat_clip(n as int, d as int),
    {
        proof {
            lemma_rat_clip_wf(n as int, d as int);
        }
        if n == 0 {
            Rational { num: 0, den: 1 }
        } else if -RAT_BOUND <= n && n <= RAT_BOUND && d <= RAT_BOUND {
            Rational { num: n, den: d }
        } else {
            let t = div_trunc(n, d);
            let c = if t < -RAT_BOUND {
                -RAT_BOUND
            } else if t > RAT_BOUND {
                RAT_BOUND
            } else {
                t
            };
            Rational { num: c, den: 1 }
        }
    }

    /// The rational equal to the integer `n`, clipped into the bound (which
    /// touches `i64::MIN` alone).
    pub fn from_int(n: i64) -> (r: Rational)
        ensures
            r@ == rat_clip(n as int, 1),
            n > i64::MIN ==> r@ == rat_of_int(n as int),
    {
        Rational::clip(n as i128, 1)
    }

    /// The exact fraction `n / d`, clipped into the representation bound.
    pub fn from_frac(n: i64, d: u64) -> (r: Rational)
        requires
            d >= 1,
        ensures
            r@ == rat_clip(n as int, d as int),
    {
        Rational::clip(n as i128, d as i128)
    }

    /// The exact fraction `n / d` from wide nonnegative parts, clipped into
    /// the representation bound.
    pub(crate) fn from_frac_wide(n: i128, d: i128) -> (r: Rational)
        requires
            0 <= n,
            1 <= d,
        ensures
            r@ == rat_clip(n as int, d as int),
    {
        Rational::clip(n, d)
    }

    /// The numerator as stored.
    pub fn numer(&self) -> (n: i128)
        ensures
            n == self@.num,
    {
        proof {
            use_type_invariant(self);
        }
        self.num
    }

    /// The denominator as stored; always positive.
    pub fn denom(&self) -> (d: i128)
        ensures
            d == self@.den,
            d >= 1,
    {
        proof {
            use_type_invariant(self);
        }
        self.den
    }

    /// Whether the two values denote the same rational number, exactly.
    pub fn eqv(&self, other: &Rational) -> (r: bool)
        ensures
            r == rat_eqv(self@, other@),
    {
        proof {
            use_type_invariant(self);
            use_type_invariant(other);
            lemma_mul_bound(self@.num, other@.den, RAT_BOUND as int, RAT_BOUND as int);
            lemma_mul_bound(other@.num, self@.den, RAT_BOUND as int, RAT_BOUND as int);
        }
        self.num * other.den == other.num * self.den
    }

    /// Whether `self <= other` as rational numbers.
    pub fn le(&self, other: &Rational) -> (r: bool)
        ensures
            r == rat_le(self@, other@),
    {
        proof {
            use_type_invariant(self);
            use_type_invariant(other);
            lemma_mul_bound(self@.num, other@.den, RAT_BOUND as int, RAT_BOUND as int);
            lemma_mul_bound(other@.num, self@.den, RAT_BOUND as int, RAT_BOUND as int);
        }
        self.num * other.den <= other.num * self.den
    }

    /// Whether `self < other` as rational numbers.
    pub fn lt(&self, other: &Rational) -> (r: bool)
        ensures
            r == rat_lt(self@, other@),
    {
        proof {
            use_type_invariant(self);
            use_type_invariant(other);
            lemma_mul_bound(self@.num, other@.den, RAT_BOUND as int, RAT_BOUND as int);
            lemma_mul_bound(other@.num, self@.den, RAT_BOUND as int, RAT_BOUND as int);
        }
        self.num * other.den < other.num * self.den
    }

    /// The sum, clipped into the representation.
    pub fn add(self, other: Rational) -> (r: Rational)
        ensures
            r@ == rat_add(self@, other@),
    {
        proof {
            use_type_invariant(self);
            use_type_invariant(other);
            lemma_mul_bound(self@.num, other@.den, RAT_BOUND as int, RAT_BOUND as int);
            lemma_mul_bound(other@.num, self@.den, RAT_BOUND as int, RAT_BOUND as int);
            lemma_mul_bound(self@.den, other@.den, RAT_BOUND as int, RAT_BOUND as int);
            lemma_pos_mul(self@.den, other@.den);
        }
        Rational::clip(self.num * other.den + other.num * self.den, self.den * other.den)
    }

    /// The difference, clipped into the representation.
    pub fn sub(self, other: Rational) -> (r: Rational)
        ensures
            r@ == rat_sub(self@, other@),
    {
        proof {
            use_type_invariant(self);
            use_type_invariant(other);
            lemma_mul_bound(self@.num, other@.den, RAT_BOUND as int, RAT_BOUND as int);
            lemma_mul_bound(other@.num, self@.den, RAT_BOUND as int, RAT_BOUND as int);
            lemma_mul_bound(self@.den, other@.den, RAT_BOUND as int, RAT_BOUND as int);
            lemma_pos_mul(self@.den, other@.den);
        }
        Rational::clip(self.num * other.den - other.num * self.den, self.den * other.den)
    }

    /// The negation; always exact.
    pub fn neg(self) -> (r: Rational)
        ensures
            r@ == rat_neg(self@),
    {
        proof {
            use_type_invariant(self);
        }
        Rational { num: -self.num, den: self.den }
    }

    /// The product, clipped into the representation.
    pub fn mul(self, other: Rational) -> (r: Rational)
        ensures
            r@ == rat_mul(self@, other@),
    {
        proof {
            use_type_invariant(self);
            use_type_invariant(other);
            lemma_mul_bound(self@.num, other@.num, RAT_BOUND as int, RAT_BOUND as int);
            lemma_mul_bound(self@.den, other@.den, RAT_BOUND as int, RAT_BOUND as int);
            lemma_pos_mul(self@.den, other@.den);
        }
        Rational::clip(self.num * other.num, self.den * other.den)
    }

    /// The quotient, clipped into the representation; a zero divisor yields
    /// zero.
    pub fn div(self, other: Rational) -> (r: Rational)
        ensures
            r@ == rat_div(self@, other@),
    {
        proof {
            use_type_invariant(self);
            use_type_invariant(other);
            lemma_mul_bound(self@.num, other@.den, RAT_BOUND as int, RAT_BOUND as int);
            lemma_mul_bound(self@.den, other@.num, RAT_BOUND as int, RAT_BOUND as int);
        }
        if other.num == 0 {
            Rational { num: 0, den: 1 }
        } else if other.num > 0 {
            proof {
                lemma_pos_mul(self@.den, other@.num);
            }
            Rational::clip(self.num * other.den, self.den * other.num)
        } else {
            proof {
                lemma_pos_neg_mul(self@.den, other@.num);
            }
            Rational::clip(-(self.num * other.den), -(self.den * other.num))
        }
    }

    /// The remainder, with the sign of the dividend; a zero divisor yields
    /// zero.
    pub fn rem(self, other: Rational) -> (r: Rational)
        ensures
            r@ == rat_rem(self@, other@),
    {
        proof {
            use_type_invariant(self);
            use_type_invariant(other);
            lemma_mul_bound(self@.num, other@.den, RAT_BOUND as int, RAT_BOUND as int);
            lemma_mul_bound(self@.den, other@.num, RAT_BOUND as int, RAT_BOUND as int);
        }
        if other.num == 0 {
            Rational { num: 0, den: 1 }
        } else {
            let q = if other.num > 0 {
                proof {
                    lemma_pos_mul(self@.den, other@.num);
                }
                div_trunc(self.num * other.den, self.den * other.num)
            } else {
                proof {
                    lemma_pos_neg_mul(self@.den, other@.num);
                }
                div_trunc(-(self.num * other.den), -(self.den * other.num))
            };
            proof {
                if other@.num > 0 {
                    lemma_tdiv_bound(self@.num * other@.den, self@.den * other@.num);
                } else {
                    lemma_tdiv_bound(-(self@.num * other@.den), -(self@.den * other@.num));
                }
            }
            let qr = Rational::clip(q, 1);
            self.sub(other.mul(qr))
        }
    }

    /// `self` raised to `exponent`, as `rat_pow` describes: the exponent is
    /// truncated toward zero and clamped to `POW_CAP` in magnitude.
    pub fn pow(self, exponent: Rational) -> (r: Rational)
        ensures
            r@ == rat_pow(self@, exponent@),
    {
        proof {
            use_type_invariant(self);
            use_type_invariant(exponent);
            lemma_tdiv_bound(exponent@.num, exponent@.den);
        }
        let n0 = div_trunc(exponent.num, exponent.den);
        let n = if n0 < -POW_CAP {
            -POW_CAP
        } else if n0 > POW_CAP {
            POW_CAP
        } else {
            n0
        };
        if self.num == self.den {
            Rational { num: 1, den: 1 }
        } else if self.num == -self.den {
            let magnitude = if n < 0 {
                -n
            } else {
                n
            };
            let even = (magnitude as u128) % 2 == 0;
            proof {
                lemma_parity_of_negation(n as int);
            }
            if even {
                Rational { num: 1, den: 1 }
            } else {
                Rational { num: -1, den: 1 }
            }
        } else if n >= 0 {
            self.pow_nat(n as u64)
        } else {
            let p = self.pow_nat((-n) as u64);
            Rational::from_int(1).div(p)
        }
    }

    /// `self` multiplied into itself `k` times.
    fn pow_nat(self, k: u64) -> (r: Rational)
        ensures
            r@ == rat_pow_n(self@, k as nat),
    {
        let mut acc = Rational { num: 1, den: 1 };
        let mut i: u64 = 0;
        proof {
            use_type_invariant(self);
        }
        while i < k
            invariant
                i <= k,
                acc@ == rat_pow_n(self@, i as nat),
                rat_wf(self@),
            decreases k - i,
        {
            acc = acc.mul(self);
            i = i + 1;
        }
        acc
    }

    /// The value truncated toward zero and clamped into `[0, u32::MAX]`; this
    /// is how operands are read as dice counts and face counts.
    pub fn to_u32_clamped(&self) -> (r: u32)
        ensures
            r as int == rat_to_u32(self@),
    {
        proof {
            use_type_invariant(self);
        }
        if self.num <= 0 {
            0
        } else {
            let q = div_nonneg(self.num, self.den);
            if q > u32::MAX as i128 {
                u32::MAX
            } else {
                q as u32
            }
        }
    }
}

} // verus!

