use saikoro::evaluation::Operand;
use saikoro::evaluation::Roll;
use saikoro::evaluation::RollGroup;
use saikoro::operator::comp_op::CompOperator;
use saikoro::operator::function;
use saikoro::rational::Rational;
use saikoro::RangeRng;
use std::collections::VecDeque;

struct RiggedRandom {
    roll_queue: VecDeque<u32>,
}

impl RiggedRandom {
    fn new<I: IntoIterator<Item = u32>>(values: I) -> Self {
        Self { roll_queue: values.into_iter().map(|it| it.saturating_sub(1)).collect() }
    }
}

impl RangeRng for RiggedRandom {
    fn rng_range(&mut self, range: std::ops::Range<u32>) -> u32 {
        self.roll_queue.pop_front().expect("roll queue empty!").clamp(range.start, range.end - 1)
    }
}

struct AnyRandom;

impl RangeRng for AnyRandom {
    fn rng_range(&mut self, range: std::ops::Range<u32>) -> u32 {
        range.start
    }
}

fn number(n: i64) -> Operand {
    Operand::Number(Rational::from_int(n))
}

fn roll_operand() -> Operand {
    let rolls = vec![2, 4, 2, 6, 1].into_iter().map(Roll::new).collect();
    Operand::from(RollGroup::new(6, rolls))
}

#[test]
fn function_add() {
    assert!(function::add(number(12), number(3), &mut AnyRandom).approx_eq(&number(15)));
}

#[test]
fn function_subtract() {
    assert!(function::subtract(number(12), number(3), &mut AnyRandom).approx_eq(&number(9)));
}

#[test]
fn function_multiply() {
    assert!(function::multiply(number(12), number(3), &mut AnyRandom).approx_eq(&number(36)));
}

#[test]
fn function_divide() {
    assert!(function::divide(number(12), number(3), &mut AnyRandom).approx_eq(&number(4)));
}

#[test]
fn function_modulo() {
    assert!(function::modulo(number(12), number(3), &mut AnyRandom).approx_eq(&number(0)));
}

#[test]
fn function_power() {
    assert!(function::power(number(12), number(3), &mut AnyRandom).approx_eq(&number(1728)));
}

#[test]
fn function_dice() {
    assert!(
        function::dice(number(4), number(6), &mut RiggedRandom::new([4, 1, 5, 2])).approx_eq(
            &number(12)
        )
    );
}

#[test]
fn functions_add() {
    assert!(function::add(number(12), number(3), &mut AnyRandom).approx_eq(&number(15)));
}

#[test]
fn functions_subtract() {
    assert!(function::subtract(number(12), number(3), &mut AnyRandom).approx_eq(&number(9)));
}

#[test]
fn functions_multiply() {
    assert!(function::multiply(number(12), number(3), &mut AnyRandom).approx_eq(&number(36)));
}

#[test]
fn functions_divide() {
    assert!(function::divide(number(12), number(3), &mut AnyRandom).approx_eq(&number(4)));
}

#[test]
fn functions_modulo() {
    assert!(function::modulo(number(12), number(3), &mut AnyRandom).approx_eq(&number(0)));
}

#[test]
fn functions_power() {
    assert!(function::power(number(12), number(3), &mut AnyRandom).approx_eq(&number(1728)));
}

#[test]
fn equal() {
    let filtered = function::comparison(CompOperator::Equals, roll_operand(), number(2)).unwrap();
    assert!(filtered.approx_eq(&number(4)));
}

#[test]
fn not_equal() {
    let filtered =
        function::comparison(CompOperator::NotEquals, roll_operand(), number(2)).unwrap();
    assert!(filtered.approx_eq(&number(11)));
}

#[test]
fn greater() {
    let filtered =
        function::comparison(CompOperator::GreaterThan, roll_operand(), number(2)).unwrap();
    assert!(filtered.approx_eq(&number(10)));
}

#[test]
fn less() {
    let filtered =
        function::comparison(CompOperator::LessThan, roll_operand(), number(2)).unwrap();
    assert!(filtered.approx_eq(&number(1)));
}

#[test]
fn greater_or_equal() {
    let filtered =
        function::comparison(CompOperator::GreaterOrEqual, roll_operand(), number(2)).unwrap();
    assert!(filtered.approx_eq(&number(14)));
}

#[test]
fn less_or_equal() {
    let filtered =
        function::comparison(CompOperator::LessOrEqual, roll_operand(), number(2)).unwrap();
    assert!(filtered.approx_eq(&number(5)));
}
