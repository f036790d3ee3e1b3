//! Statistics over roll groups: observed means, and population mean,
//! standard deviation and z-score computed over every equally likely outcome
//! of the group's underlying dice process.

use crate::evaluation::roll_types::spec_total_sat;
use crate::evaluation::roll_types::DiceEvaluation;
use crate::evaluation::roll_types::Roll;
use crate::evaluation::roll_types::RollGroup;
use crate::rational::rat_add;
use crate::rational::rat_div;
use crate::rational::rat_mul;
use crate::rational::rat_of_int;
use crate::rational::rat_sub;
use crate::rational::rat_zero;
use crate::rational::Rat;
use crate::rational::Rational;
use vstd::arithmetic::power::pow;
use vstd::prelude::*;

verus! {

/// How many rolls of the group still count toward its total.
pub open spec fn spec_surviving_count(rolls: Seq<Roll>) -> int
    decreases rolls.len(),
{
    if rolls.len() == 0 {
        0
    } else {
        spec_surviving_count(rolls.drop_last()) + (if rolls.last().spec_removed() {
            0int
        } else {
            1int
        })
    }
}

/// The sum of every roll's original value, removed rolls included.
pub open spec fn spec_raw_total(rolls: Seq<Roll>) -> int
    decreases rolls.len(),
{
    if rolls.len() == 0 {
        0
    } else {
        spec_raw_total(rolls.drop_last()) + rolls.last().original_value as int
    }
}

/// The raw total as reported, held within `u32`.
pub open spec fn spec_raw_total_sat(rolls: Seq<Roll>) -> int {
    if spec_raw_total(rolls) > u32::MAX {
        u32::MAX as int
    } else {
        spec_raw_total(rolls)
    }
}

/// The mean of every possible outcome of `count` dice of `faces` faces:
/// `count * (faces + 1) / 2`, exactly.
pub open spec fn spec_population_mean(count: int, faces: int) -> Rat {
    rat_div(rat_mul(rat_of_int(count), rat_of_int(faces + 1)), rat_of_int(2))
}

/// The total shown by the `k`-th outcome of rolling `count` dice of `faces`
/// faces, the outcomes numbered by their base-`faces` digits, least
/// significant die first.
pub open spec fn spec_outcome_sum(k: int, count: int, faces: int) -> int
    decreases count,
{
    if count <= 0 || faces <= 0 {
        0
    } else {
        (k % faces + 1) + spec_outcome_sum(k / faces, count - 1, faces)
    }
}

/// Twice the `k`-th outcome's deviation from the population mean, squared;
/// doubling keeps the arithmetic in integers.
pub open spec fn spec_dev2(k: int, count: int, faces: int) -> int {
    let d = 2 * spec_outcome_sum(k, count, faces) - count * (faces + 1);
    d * d
}

/// The sum of `spec_dev2` over the first `upto` outcomes.
pub open spec fn spec_sumsq(count: int, faces: int, upto: int) -> int
    decreases upto,
{
    if upto <= 0 {
        0
    } else {
        spec_sumsq(count, faces, upto - 1) + spec_dev2(upto - 1, count, faces)
    }
}

/// The standard deviation scaled by ten thousand and truncated: with `n` the
/// number of outcomes and `ssq` the summed squared doubled deviations, this
/// is the integer part of `sqrt(ssq / (4 n)) * 10^4`, given here by the
/// integer square root of the variance carried to eight decimal digits.  The
/// modest scale keeps later sums and quotients of z-scores within the
/// rational representation.
pub open spec fn spec_stdev_scaled(count: int, faces: int) -> int {
    let n = pow(faces, count as nat);
    let ssq = spec_sumsq(count, faces, n);
    let q = ssq / (4 * n);
    let rm = ssq % (4 * n);
    spec_isqrt(q * 100000000 + (rm * 100000000) / (4 * n))
}

/// Whether `m` is the integer square root of `x`.
pub open spec fn is_isqrt(x: int, m: int) -> bool {
    0 <= m && m * m <= x && x < (m + 1) * (m + 1)
}

/// The integer square root of a nonnegative number.
pub open spec fn spec_isqrt(x: int) -> int {
    choose|m: int| is_isqrt(x, m)
}

/// The population standard deviation, as the exact rational
/// `spec_stdev_scaled / 10^4`.
pub open spec fn spec_population_stdev(count: int, faces: int) -> Rat {
    crate::rational::rat_clip(spec_stdev_scaled(count, faces), 10000)
}

/// The z-score of an observed total against the population: its distance
/// from the population mean in units of population standard deviation.
pub open spec fn spec_z_score(total: int, count: int, faces: int) -> Rat {
    rat_div(
        rat_sub(rat_of_int(total), spec_population_mean(count, faces)),
        spec_population_stdev(count, faces),
    )
}

/// Whether population statistics are computable for a group: at least one
/// die, at least one face, and an outcome count that fits the counter.
pub open spec fn spec_population_fits(count: int, faces: int) -> bool {
    &&& 1 <= count <= u32::MAX
    &&& 1 <= faces
    &&& pow(faces, count as nat) <= u32::MAX
}

/// The sum of the z-scores of a prefix of the groups.
pub open spec fn spec_z_score_sum(groups: Seq<RollGroup>, upto: int) -> Rat
    decreases upto,
{
    if upto <= 0 {
        rat_zero()
    } else {
        rat_add(
            spec_z_score_sum(groups, upto - 1),
            spec_z_score(
                spec_total_sat(groups[upto - 1]@),
                groups[upto - 1]@.len() as int,
                groups[upto - 1].faces as int,
            ),
        )
    }
}

impl RollGroup {
    /// The mean of the rolls still counting, with removed rolls excluded;
    /// zero when none survive.
    pub fn mean(&self) -> (r: Rational)
        requires
            self@.len() <= u32::MAX,
        ensures
            r@ == rat_div(
                rat_of_int(spec_total_sat(self@)),
                rat_of_int(spec_surviving_count(self@)),
            ),
    {
        let total = self.total();
        let mut survivors: u64 = 0;
        let mut i: usize = 0;
        let rolls = self.iter();
        proof {
            assert(self@.take(0) =~= Seq::<Roll>::empty());
        }
        while i < rolls.len()
            invariant
                0 <= i <= rolls.len(),
                rolls@ == self@,
                survivors == spec_surviving_count(self@.take(i as int)),
                survivors <= i,
            decreases rolls.len() - i,
        {
            proof {
                assert(self@.take(i + 1).drop_last() =~= self@.take(i as int));
            }
            if !rolls[i].is_removed() {
                survivors = survivors + 1;
            }
            i = i + 1;
        }
        proof {
            assert(self@.take(self@.len() as int) =~= self@);
        }
        Rational::from_int(total as i64).div(Rational::from_int(survivors as i64))
    }

    /// The mean of every roll's original value, removed rolls included; zero
    /// for an empty group.
    pub fn mean_raw(&self) -> (r: Rational)
        requires
            self@.len() <= u32::MAX,
        ensures
            r@ == rat_div(
                rat_of_int(spec_raw_total_sat(self@)),
                rat_of_int(self@.len() as int),
            ),
    {
        let mut acc: u64 = 0;
        let mut i: usize = 0;
        let rolls = self.iter();
        proof {
            assert(self@.take(0) =~= Seq::<Roll>::empty());
        }
        while i < rolls.len()
            invariant
                0 <= i <= rolls.len(),
                rolls@ == self@,
                acc == spec_raw_total_sat(self@.take(i as int)),
                acc <= u32::MAX,
            decreases rolls.len() - i,
        {
            proof {
                assert(self@.take(i + 1).drop_last() =~= self@.take(i as int));
                lemma_raw_total_nonneg(self@.take(i as int));
            }
            let widened = acc + (rolls[i].original_value as u64);
            acc = if widened > u32::MAX as u64 {
                u32::MAX as u64
            } else {
                widened
            };
            i = i + 1;
        }
        proof {
            assert(self@.take(self@.len() as int) =~= self@);
        }
        Rational::from_int(acc as i64).div(Rational::from_int(self.len() as i64))
    }

    /// The population this group was drawn from: its die count and face
    /// count.
    pub fn expression(&self) -> (r: DiceExpression)
        requires
            self@.len() <= u32::MAX,
        ensures
            r.count == self@.len(),
            r.faces == self.faces,
    {
        DiceExpression { count: self.len() as u32, faces: self.faces }
    }

    /// The mean of every possible outcome of this group's dice process.
    pub fn population_mean(&self) -> (r: Rational)
        requires
            self@.len() <= u32::MAX,
        ensures
            r@ == spec_population_mean(self@.len() as int, self.faces as int),
    {
        self.expression().mean()
    }

    /// The standard deviation of this group's dice process, exact to four
    /// decimal places.  The computation enumerates all `faces ^ count`
    /// outcomes, which must fit a `u32`; it is exponential in the number of
    /// dice, a cost accepted for tabletop-sized pools.
    pub fn population_stdev(&self) -> (r: Rational)
        requires
            spec_population_fits(self@.len() as int, self.faces as int),
        ensures
            r@ == spec_population_stdev(self@.len() as int, self.faces as int),
    {
        self.expression().stdev()
    }

    /// The observed total's distance from the population mean, in units of
    /// population standard deviation.
    pub fn z_score(&self) -> (r: Rational)
        requires
            spec_population_fits(self@.len() as int, self.faces as int),
        ensures
            r@ == spec_z_score(
                spec_total_sat(self@),
                self@.len() as int,
                self.faces as int,
            ),
    {
        let population = self.expression();
        let mean = population.mean();
        let stdev = population.stdev();
        Rational::from_int(self.total() as i64).sub(mean).div(stdev)
    }

    /// Whether every roll, removed ones included, shows the die's highest
    /// face.
    pub fn is_max_roll(&self) -> (r: bool)
        ensures
            r == forall|i: int|
                0 <= i < self@.len() ==> (#[trigger] self@[i]).original_value >= self.faces,
    {
        let rolls = self.iter();
        let mut i: usize = 0;
        while i < rolls.len()
            invariant
                0 <= i <= rolls.len(),
                rolls@ == self@,
                forall|j: int| 0 <= j < i ==> (#[trigger] self@[j]).original_value >= self.faces,
            decreases rolls.len() - i,
        {
            if rolls[i].original_value < self.faces {
                return false;
            }
            i = i + 1;
        }
        true
    }

    /// Whether every roll, removed ones included, shows the die's lowest
    /// face.
    pub fn is_min_roll(&self) -> (r: bool)
        ensures
            r == forall|i: int|
                0 <= i < self@.len() ==> (#[trigger] self@[i]).original_value <= 1,
    {
        let rolls = self.iter();
        let mut i: usize = 0;
        while i < rolls.len()
            invariant
                0 <= i <= rolls.len(),
                rolls@ == self@,
                forall|j: int| 0 <= j < i ==> (#[trigger] self@[j]).original_value <= 1,
            decreases rolls.len() - i,
        {
            if rolls[i].original_value > 1 {
                return false;
            }
            i = i + 1;
        }
        true
    }
}

impl DiceEvaluation {
    /// The arithmetic mean of the z-scores of all roll groups of the
    /// evaluation.
    pub fn mean_z_score(&self) -> (r: Rational)
        requires
            self.roll_groups@.len() <= u32::MAX,
            forall|i: int|
                0 <= i < self.roll_groups@.len() ==> spec_population_fits(
                    (#[trigger] self.roll_groups@[i])@.len() as int,
                    self.roll_groups@[i].faces as int,
                ),
        ensures
            r@ == rat_div(
                spec_z_score_sum(self.roll_groups@, self.roll_groups@.len() as int),
                rat_of_int(self.roll_groups@.len() as int),
            ),
    {
        let mut acc = Rational::from_int(0);
        let mut i: usize = 0;
        while i < self.roll_groups.len()
            invariant
                0 <= i <= self.roll_groups.len(),
                acc@ == spec_z_score_sum(self.roll_groups@, i as int),
                forall|k: int|
                    0 <= k < self.roll_groups@.len() ==> spec_population_fits(
                        (#[trigger] self.roll_groups@[k])@.len() as int,
                        self.roll_groups@[k].faces as int,
                    ),
            decreases self.roll_groups.len() - i,
        {
            let z = self.roll_groups[i].z_score();
            acc = acc.add(z);
            i = i + 1;
        }
        acc.div(Rational::from_int(self.roll_groups.len() as i64))
    }
}

/// The raw total of a group never goes below zero.
pub proof fn lemma_raw_total_nonneg(rolls: Seq<Roll>)
    ensures
        spec_raw_total(rolls) >= 0,
    decreases rolls.len(),
{
    if rolls.len() > 0 {
        lemma_raw_total_nonneg(rolls.drop_last());
    }
}

/// A dice process: so many dice of so many faces, whatever was rolled.
#[derive(Debug, PartialEq, Eq, Clone, Copy, Structural)]
pub struct DiceExpression {
    pub count: u32,
    pub faces: u32,
}

impl DiceExpression {
    /// The process from its die count and face count.
    pub fn new(count: u32, faces: u32) -> (r: DiceExpression)
        ensures
            r == (DiceExpression { count, faces }),
    {
        DiceExpression { count, faces }
    }

    /// The mean over every possible outcome, exactly.
    pub fn mean(self) -> (r: Rational)
        ensures
            r@ == spec_population_mean(self.count as int, self.faces as int),
    {
        let count = Rational::from_int(self.count as i64);
        let faces_up = Rational::from_int(self.faces as i64 + 1);
        count.mul(faces_up).div(Rational::from_int(2))
    }

    /// How many equally likely outcomes the process has.
    pub fn population_size(self) -> (r: u32)
        requires
            spec_population_fits(self.count as int, self.faces as int),
        ensures
            r == pow(self.faces as int, self.count as nat),
    {
        let mut acc: u64 = 1;
        let mut i: u32 = 0;
        proof {
            vstd::arithmetic::power::lemma_pow0(self.faces as int);
        }
        while i < self.count
            invariant
                0 <= i <= self.count,
                spec_population_fits(self.count as int, self.faces as int),
                acc == pow(self.faces as int, i as nat),
                acc <= u32::MAX,
            decreases self.count - i,
        {
            proof {
                lemma_pow_step(self.faces as int, i as nat);
                vstd::arithmetic::power::lemma_pow_increases(
                    self.faces as nat,
                    (i + 1) as nat,
                    self.count as nat,
                );
                vstd::arithmetic::power::lemma_pow_positive(self.faces as int, i as nat);
            }
            acc = acc * (self.faces as u64);
            i = i + 1;
        }
        acc as u32
    }

    /// The outcomes' totals, one by one, in odometer order.
    pub fn population_iter(self) -> (r: RollPopulationIter)
        requires
            self.count >= 1,
        ensures
            r.faces == self.faces,
            r@ =~= seq![0u32].add(Seq::<u32>::new((self.count - 1) as nat, |i: int| 1u32)),
    {
        RollPopulationIter::new(self.count, self.faces)
    }

    /// The standard deviation over every possible outcome, exact to four
    /// decimal places, by enumerating the whole population.
    pub fn stdev(self) -> (r: Rational)
        requires
            spec_population_fits(self.count as int, self.faces as int),
        ensures
            r@ == spec_population_stdev(self.count as int, self.faces as int),
    {
        let c = self.count;
        let f = self.faces;
        let n = self.population_size();
        proof {
            lemma_dev_bound(c as int, f as int);
            vstd::arithmetic::power::lemma_pow_positive(f as int, c as nat);
        }
        let mut sumsq: i128 = 0;
        let mut k: u32 = 0;
        while k < n
            invariant
                0 <= k <= n,
                1 <= c,
                1 <= f,
                n == pow(f as int, c as nat),
                n <= u32::MAX,
                c as int * (f as int - 1) <= 0x100000000,
                sumsq == spec_sumsq(c as int, f as int, k as int),
                sumsq <= k as int * 0x10000000000000000,
                sumsq >= 0,
            decreases n - k,
        {
            let s = outcome_total(k, c, f);
            proof {
                lemma_outcome_bounds(k as int, c as int, f as int);
                crate::rational::lemma_mul_bound(c as int, f as int + 1, 0x100000000, 0x100000000);
                crate::rational::lemma_mul_bound(c as int, f as int, 0xFFFFFFFF, 0xFFFFFFFF);
            }
            let dev: i128 = 2 * (s as i128) - (c as i128) * ((f as i128) + 1);
            proof {
                lemma_dev_squared_bound(
                    spec_outcome_sum(k as int, c as int, f as int),
                    c as int,
                    f as int,
                );
                crate::rational::lemma_mul_bound(
                    k as int,
                    0x10000000000000000,
                    0x100000000,
                    0x10000000000000000,
                );
                assert((k as int + 1) * 0x10000000000000000 == k as int * 0x10000000000000000
                    + 0x10000000000000000) by (nonlinear_arith);
                assert((k as int + 1) * 0x10000000000000000 <= n as int * 0x10000000000000000)
                    by (nonlinear_arith)
                    requires
                        k as int + 1 <= n as int,
                ;
                crate::rational::lemma_mul_bound(
                    n as int,
                    0x10000000000000000,
                    0x100000000,
                    0x10000000000000000,
                );
            }
            proof {
                assert(dev as int * dev as int >= 0) by (nonlinear_arith);
            }
            sumsq = sumsq + dev * dev;
            k = k + 1;
        }
        let fourn: i128 = 4 * (n as i128);
        proof {
            lemma_variance_bound(n as int, sumsq as int);
        }
        let q = div_big(sumsq, fourn);
        let rm = rem_big(sumsq, fourn);
        proof {
            crate::rational::lemma_mul_bound(q as int, 100000000, 0x4000000000000000, 100000000);
            crate::rational::lemma_mul_bound(rm as int, 100000000, 0x400000000, 100000000);
            crate::rational::lemma_nonneg_mul(q as int, 100000000);
            crate::rational::lemma_nonneg_mul(rm as int, 100000000);
        }
        let widened = rm * 100000000;
        let part = div_big(widened, fourn);
        proof {
            vstd::arithmetic::div_mod::lemma_div_nonincreasing(widened as int, fourn as int);
            vstd::arithmetic::div_mod::lemma_div_pos_is_pos(widened as int, fourn as int);
        }
        let scaled = q * 100000000 + part;
        let root = isqrt_big(scaled);
        proof {
            assert(root as int <= 25000000000000) by (nonlinear_arith)
                requires
                    0 <= root as int && root as int * root as int <= scaled as int && scaled as int
                        <= 0x4000000000000000 * 100000000 + 0x400000000 * 100000000,
            ;
            assert(is_isqrt(scaled as int, spec_isqrt(scaled as int))) by {
                assert(is_isqrt(scaled as int, root as int));
            }
            lemma_isqrt_unique(scaled as int, root as int, spec_isqrt(scaled as int));
        }
        Rational::from_frac_wide(root, 10000)
    }
}

/// One step of an integer power.
proof fn lemma_pow_step(b: int, e: nat)
    ensures
        pow(b, e + 1) == pow(b, e) * b,
{
    reveal(pow);
    vstd::arithmetic::mul::lemma_mul_is_commutative(b, pow(b, e));
}

/// Raising a larger base gives a larger power.
proof fn lemma_pow_base_mono(a: int, b: int, e: nat)
    requires
        1 <= a <= b,
    ensures
        pow(a, e) <= pow(b, e),
    decreases e,
{
    reveal(pow);
    if e > 0 {
        lemma_pow_base_mono(a, b, (e - 1) as nat);
        vstd::arithmetic::power::lemma_pow_positive(a, (e - 1) as nat);
        assert(a * pow(a, (e - 1) as nat) <= b * pow(b, (e - 1) as nat)) by (nonlinear_arith)
            requires
                1 <= a <= b && 0 < pow(a, (e - 1) as nat) <= pow(b, (e - 1) as nat),
        ;
        assert(pow(a, e) == a * pow(a, (e - 1) as nat));
        assert(pow(b, e) == b * pow(b, (e - 1) as nat));
    }
}

/// When the whole population fits a `u32`, twice any outcome's deviation is
/// bounded by `2^32`.
proof fn lemma_dev_bound(c: int, f: int)
    requires
        1 <= c,
        1 <= f,
        pow(f, c as nat) <= u32::MAX,
    ensures
        c * (f - 1) <= 0x100000000,
{
    if f == 1 {
        assert(c * (f - 1) == 0) by (nonlinear_arith)
            requires
                f == 1,
        ;
    } else if c == 1 {
        vstd::arithmetic::power::lemma_pow1(f);
        assert(c * (f - 1) == f - 1) by (nonlinear_arith)
            requires
                c == 1,
        ;
    } else {
        // Two or more dice with two or more faces: the face count is at most
        // 2^16 and the die count at most 32.
        vstd::arithmetic::power::lemma_pow_increases(f as nat, 2, c as nat);
        assert(pow(f, 2) == f * f) by {
            reveal(pow);
            vstd::arithmetic::power::lemma_pow1(f);
        }
        assert(f <= 0x10000) by (nonlinear_arith)
            requires
                f * f <= u32::MAX && 1 <= f,
        ;
        lemma_pow_base_mono(2, f, c as nat);
        vstd::arithmetic::power2::lemma2_to64_rest();
        vstd::arithmetic::power2::lemma_pow2(33);
        if c > 32 {
            vstd::arithmetic::power::lemma_pow_increases(2, 33, c as nat);
            assert(pow(2, 33) == 0x200000000);
            assert(false);
        }
        crate::rational::lemma_mul_bound(c, f - 1, 32, 0x10000);
    }
}

/// Every outcome's total lies between the die count and the die count times
/// the face count.
proof fn lemma_outcome_bounds(k: int, c: int, f: int)
    requires
        0 <= k,
        0 <= c,
        1 <= f,
    ensures
        c <= spec_outcome_sum(k, c, f) <= c * f,
    decreases c,
{
    if c > 0 {
        vstd::arithmetic::div_mod::lemma_mod_division_less_than_divisor(k, f);
        vstd::arithmetic::div_mod::lemma_div_pos_is_pos(k, f);
        lemma_outcome_bounds(k / f, c - 1, f);
        assert((c - 1) * f + f == c * f) by (nonlinear_arith);
        assert(c - 1 + 1 <= c * f) by (nonlinear_arith)
            requires
                1 <= f && 1 <= c,
        ;
    } else {
        assert(c * f == 0) by (nonlinear_arith)
            requires
                c == 0,
        ;
    }
}

/// A deviation's square stays below `2^64` whenever twice the deviation is
/// bounded by `2^32`.
proof fn lemma_dev_squared_bound(s: int, c: int, f: int)
    by (nonlinear_arith)
    requires
        c <= s <= c * f,
        1 <= c,
        1 <= f,
        c * (f - 1) <= 0x100000000,
    ensures
        (2 * s - c * (f + 1)) * (2 * s - c * (f + 1)) <= 0x10000000000000000,
{
}

/// The variance numerator, after division by the outcome count, stays small
/// enough to carry eighteen more decimal digits.
proof fn lemma_variance_bound(n: int, ssq: int)
    requires
        1 <= n <= u32::MAX,
        0 <= ssq <= n * 0x10000000000000000,
    ensures
        0 <= ssq / (4 * n) <= 0x4000000000000000,
        0 <= ssq % (4 * n) < 4 * n,
        (ssq % (4 * n)) * 100000000 >= 0,
{
    let d = 4 * n;
    vstd::arithmetic::div_mod::lemma_mod_division_less_than_divisor(ssq, d);
    vstd::arithmetic::div_mod::lemma_div_pos_is_pos(ssq, d);
    assert(ssq <= d * 0x4000000000000000) by (nonlinear_arith)
        requires
            ssq <= n * 0x10000000000000000 && d == 4 * n && 1 <= n,
    ;
    vstd::arithmetic::div_mod::lemma_div_is_ordered(ssq, d * 0x4000000000000000, d);
    vstd::arithmetic::div_mod::lemma_div_multiples_vanish(0x4000000000000000, d);
    crate::rational::lemma_nonneg_mul(ssq % d, 100000000);
}

/// Integer square roots are unique.
proof fn lemma_isqrt_unique(x: int, m1: int, m2: int)
    by (nonlinear_arith)
    requires
        is_isqrt(x, m1),
        is_isqrt(x, m2),
    ensures
        m1 == m2,
{
}

/// The total the `k`-th outcome of `c` dice of `f` faces shows.
fn outcome_total(k: u32, c: u32, f: u32) -> (r: u64)
    requires
        1 <= f,
    ensures
        r == spec_outcome_sum(k as int, c as int, f as int),
        r <= c as int * f as int,
{
    let mut s: u64 = 0;
    let mut kk: u32 = k;
    let mut i: u32 = 0;
    proof {
        lemma_outcome_bounds(k as int, c as int, f as int);
    }
    while i < c
        invariant
            0 <= i <= c,
            1 <= f,
            spec_outcome_sum(k as int, c as int, f as int) == s + spec_outcome_sum(
                kk as int,
                (c - i) as int,
                f as int,
            ),
            s <= i as int * f as int,
        decreases c - i,
    {
        proof {
            lemma_outcome_bounds(kk as int, (c - i) as int, f as int);
            vstd::arithmetic::div_mod::lemma_mod_division_less_than_divisor(kk as int, f as int);
            assert((i + 1) as int * f as int == i as int * f as int + f as int)
                by (nonlinear_arith);
            crate::rational::lemma_mul_bound(i as int + 1, f as int, 0xFFFFFFFF, 0xFFFFFFFF);
            crate::rational::lemma_nonneg_mul(i as int, f as int);
        }
        let d = kk % f;
        s = s + (d as u64) + 1;
        kk = kk / f;
        i = i + 1;
    }
    s
}

/// Division of nonnegative wide values.
fn div_big(a: i128, b: i128) -> (r: i128)
    requires
        0 <= a,
        1 <= b,
    ensures
        r == a as int / b as int,
{
    ((a as u128) / (b as u128)) as i128
}

/// Remainder of nonnegative wide values.
fn rem_big(a: i128, b: i128) -> (r: i128)
    requires
        0 <= a,
        1 <= b,
    ensures
        r == a as int % b as int,
{
    ((a as u128) % (b as u128)) as i128
}

/// The integer square root, by bisection.
fn isqrt_big(x: i128) -> (r: i128)
    requires
        0 <= x <= 0x40000000000000000000000000000000,
    ensures
        is_isqrt(x as int, r as int),
        0 <= r <= 0x8000000000000000,
{
    let mut lo: i128 = 0;
    let mut hi: i128 = 0x8000000000000000;
    proof {
        assert((hi as int + 1) * (hi as int + 1) > x) by (nonlinear_arith)
            requires
                x <= 0x40000000000000000000000000000000 && hi == 0x8000000000000000,
        ;
    }
    while lo < hi
        invariant
            0 <= lo <= hi <= 0x8000000000000000,
            lo as int * lo as int <= x,
            x < (hi as int + 1) * (hi as int + 1),
        decreases hi - lo,
    {
        let mid = lo + (hi - lo + 1) / 2;
        proof {
            assert(lo < mid <= hi);
            crate::rational::lemma_mul_bound(
                mid as int,
                mid as int,
                0x8000000000000000,
                0x8000000000000000,
            );
        }
        if mid * mid <= x {
            lo = mid;
        } else {
            hi = mid - 1;
            proof {
                assert(x < (mid as int) * (mid as int));
            }
        }
    }
    lo
}

/// Walks every outcome of a dice process in odometer order: the lowest die
/// turns fastest, and each step yields the outcome's total.
#[derive(Debug)]
pub struct RollPopulationIter {
    pub faces: u32,
    pub counters: Vec<u32>,
}

impl View for RollPopulationIter {
    type V = Seq<u32>;

    closed spec fn view(&self) -> Seq<u32> {
        self.counters@
    }
}

/// The odometer's one-step relation: the first die that can still turn up
/// does, every die below it resets to one, and the rest stand; when no die
/// can turn, the walk is over.
pub open spec fn spec_odometer_step(faces: int, before: Seq<u32>, after: Seq<u32>, idx: int) -> bool {
    &&& 0 <= idx < before.len()
    &&& after.len() == before.len()
    &&& (forall|i: int| 0 <= i < idx ==> (#[trigger] after[i]) == 1)
    &&& after[idx] == before[idx] + 1
    &&& (forall|i: int| idx < i < before.len() ==> (#[trigger] after[i]) == before[i])
    &&& (forall|i: int| 0 <= i < idx ==> (#[trigger] before[i]) as int + 1 > faces)
    &&& before[idx] as int + 1 <= faces
}

/// The sum of the counters, held within `u32`.
pub open spec fn spec_counter_sum(counters: Seq<u32>) -> int
    decreases counters.len(),
{
    if counters.len() == 0 {
        0
    } else {
        spec_counter_sum(counters.drop_last()) + counters.last() as int
    }
}

pub open spec fn spec_counter_sum_sat(counters: Seq<u32>) -> int {
    if spec_counter_sum(counters) > u32::MAX {
        u32::MAX as int
    } else {
        spec_counter_sum(counters)
    }
}

impl RollPopulationIter {
    /// A walk over the outcomes of `count` dice of `faces` faces, poised one
    /// step before the first outcome.
    pub fn new(count: u32, faces: u32) -> (r: RollPopulationIter)
        requires
            count >= 1,
        ensures
            r.faces == faces,
            r@ =~= seq![0u32].add(Seq::<u32>::new((count - 1) as nat, |i: int| 1u32)),
    {
        let mut starting_state: Vec<u32> = Vec::new();
        starting_state.push(0);
        let mut i: u32 = 1;
        while i < count
            invariant
                1 <= i <= count,
                starting_state@.len() == i,
                starting_state@[0] == 0u32,
                forall|j: int| 1 <= j < i ==> (#[trigger] starting_state@[j]) == 1u32,
            decreases count - i,
        {
            starting_state.push(1);
            i = i + 1;
        }
        RollPopulationIter { faces, counters: starting_state }
    }

    /// Advances the odometer one step: the next outcome's total (clamped
    /// into `u32`), or `None` once every die already shows its highest
    /// count.
    pub fn next(&mut self) -> (r: Option<u32>)
        requires
            old(self)@.len() >= 1,
        ensures
            final(self).faces == old(self).faces,
            final(self)@.len() == old(self)@.len(),
            match r {
                Option::Some(total) => exists|idx: int|
                    #[trigger] spec_odometer_step(
                        old(self).faces as int,
                        old(self)@,
                        final(self)@,
                        idx,
                    ) && total == spec_counter_sum_sat(final(self)@),
                Option::None => {
                    &&& forall|i: int|
                        0 <= i < old(self)@.len() ==> (#[trigger] old(self)@[i]) as int + 1
                            > old(self).faces
                    &&& final(self)@[old(self)@.len() - 1] == old(self)@[old(self)@.len() - 1]
                    &&& forall|i: int|
                        0 <= i < old(self)@.len() - 1 ==> (#[trigger] final(self)@[i]) == 1u32
                },
            },
    {
        let mut i: usize = 0;
        let len = self.counters.len();
        let ghost before = self.counters@;
        loop
            invariant
                0 <= i < len,
                len == self.counters@.len(),
                len == before.len(),
                len >= 1,
                self.faces == old(self).faces,
                before == old(self)@,
                forall|j: int| i <= j < len ==> (#[trigger] self.counters@[j]) == before[j],
                forall|j: int| 0 <= j < i ==> (#[trigger] self.counters@[j]) == 1u32,
                forall|j: int| 0 <= j < i ==> (#[trigger] before[j]) as int + 1 > self.faces,
            decreases len - i,
        {
            let current = self.counters[i];
            proof {
                assert(current == before[i as int]);
            }
            if current < u32::MAX && current + 1 <= self.faces {
                let ghost pre = self.counters@;
                self.counters.set(i, current + 1);
                proof {
                    assert(self.counters@ == pre.update(i as int, (current + 1) as u32));
                    assert forall|j: int| 0 <= j < i as int implies (#[trigger] self.counters@[j])
                        == 1u32 by {
                        assert(pre[j] == 1u32);
                    }
                    assert forall|j: int| (i as int) < j && j < (len as int) implies (
                    #[trigger] self.counters@[j]) == before[j] by {
                        assert(pre[j] == before[j]);
                    }
                    assert(self.counters@[i as int] == before[i as int] + 1);
                    assert(spec_odometer_step(
                        old(self).faces as int,
                        before,
                        self.counters@,
                        i as int,
                    ));
                }
                let total = self.counter_total();
                return Some(total);
            }
            if i >= len - 1 {
                proof {
                    assert(before[i as int] as int + 1 > self.faces as int);
                    assert forall|j: int| 0 <= j < len as int implies (#[trigger] before[j]) as int
                        + 1 > old(self).faces as int by {
                        if j < i as int {
                        } else {
                            assert(j == i as int);
                        }
                    }
                    assert(self.counters@[len - 1] == before[len - 1]);
                }
                return None;
            }
            self.counters.set(i, 1);
            i = i + 1;
        }
    }

    /// The sum of the dice the odometer currently shows, clamped into
    /// `u32`.
    fn counter_total(&self) -> (r: u32)
        ensures
            r == spec_counter_sum_sat(self@),
    {
        let mut acc: u64 = 0;
        let mut i: usize = 0;
        proof {
            assert(self@.take(0) =~= Seq::<u32>::empty());
        }
        while i < self.counters.len()
            invariant
                0 <= i <= self.counters.len(),
                acc == spec_counter_sum_sat(self@.take(i as int)),
                acc <= u32::MAX,
            decreases self.counters.len() - i,
        {
            proof {
                assert(self@.take(i + 1).drop_last() =~= self@.take(i as int));
                lemma_counter_sum_nonneg(self@.take(i as int));
            }
            let widened = acc + (self.counters[i] as u64);
            acc = if widened > u32::MAX as u64 {
                u32::MAX as u64
            } else {
                widened
            };
            i = i + 1;
        }
        proof {
            assert(self@.take(self@.len() as int) =~= self@);
        }
        acc as u32
    }
}

/// Counter sums never go below zero.
pub proof fn lemma_counter_sum_nonneg(counters: Seq<u32>)
    ensures
        spec_counter_sum(counters) >= 0,
    decreases counters.len(),
{
    if counters.len() > 0 {
        lemma_counter_sum_nonneg(counters.drop_last());
    }
}

} // verus!
