use saikoro::eval_with_rand;
use saikoro::rational::Rational;
use saikoro::RangeRng;
use std::collections::VecDeque;

struct RiggedRandom {
    roll_queue: VecDeque<u32>,
}

impl RiggedRandom {
    fn new<I: IntoIterator<Item = u32>>(values: I) -> Self {
        Self { roll_queue: values.into_iter().map(|it| it.saturating_sub(1)).collect() }
    }
}

impl RangeRng for RiggedRandom {
    fn rng_range(&mut self, range: std::ops::Range<u32>) -> u32 {
        self.roll_queue.pop_front().expect("roll queue empty!").clamp(range.start, range.end - 1)
    }
}

fn eval_value(input: &str) -> Rational {
    eval_with_rand(input, &mut RiggedRandom::new([])).unwrap().value
}

fn eval_value_rigged<I: IntoIterator<Item = u32>>(input: &str, rolls: I) -> Rational {
    eval_with_rand(input, &mut RiggedRandom::new(rolls)).unwrap().value
}

#[test]
fn division_is_exact() {
    assert!(eval_value("12/5").eqv(&Rational::from_frac(12, 5)));
    assert!(eval_value("12/3").eqv(&Rational::from_int(4)));
}

#[test]
fn decimal_literals_are_exact() {
    assert!(eval_value("3.5+1.5").eqv(&Rational::from_int(5)));
    assert!(eval_value("0.1+0.2").eqv(&Rational::from_frac(3, 10)));
}

#[test]
fn remainder_takes_the_dividend_sign() {
    assert!(eval_value("12%5").eqv(&Rational::from_int(2)));
    assert!(eval_value("7%-3").eqv(&Rational::from_int(1)));
    assert!(eval_value("-5%3").eqv(&Rational::from_int(-2)));
}

#[test]
fn negative_exponents_invert() {
    assert!(eval_value("2^-2").eqv(&Rational::from_frac(1, 4)));
    assert!(eval_value("2^0").eqv(&Rational::from_int(1)));
}

#[test]
fn unary_operators_apply() {
    assert!(eval_value("+5").eqv(&Rational::from_int(5)));
    assert!(eval_value("-5").eqv(&Rational::from_int(-5)));
    assert!(eval_value_rigged("-2d6", [3, 4]).eqv(&Rational::from_int(-7)));
    assert!(eval_value_rigged("d6", [4]).eqv(&Rational::from_int(4)));
}

#[test]
fn juxtaposition_reopens_at_the_loosest_level() {
    // The implicit product closes only after everything that follows the
    // parenthesized operand: `2(3)+1` groups as `2*((3)+1)`.
    assert!(eval_value("2(3)+1").eqv(&Rational::from_int(8)));
}

#[test]
fn operator_precedence_holds() {
    assert!(eval_value("2+3*4").eqv(&Rational::from_int(14)));
    assert!(eval_value_rigged("2d6+1", [2, 3]).eqv(&Rational::from_int(6)));
    assert!(eval_value_rigged("2d6*2", [2, 3]).eqv(&Rational::from_int(10)));
}
