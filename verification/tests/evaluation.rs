use saikoro::eval_with_rand;
use saikoro::eval_with_seed;
use saikoro::evaluation::DiceEvaluation;
use saikoro::rational::Rational;
use saikoro::RangeRng;
use std::collections::VecDeque;

struct RiggedRandom {
    roll_queue: VecDeque<u32>,
}

impl RiggedRandom {
    fn new<I: IntoIterator<Item = u32>>(values: I) -> Self {
        Self { roll_queue: values.into_iter().map(|it| it.saturating_sub(1)).collect() }
    }
}

impl RangeRng for RiggedRandom {
    fn rng_range(&mut self, range: std::ops::Range<u32>) -> u32 {
        self.roll_queue.pop_front().expect("roll queue empty!").clamp(range.start, range.end - 1)
    }
}

fn eval_expect_rand<R: RangeRng>(input: &str, rand: &mut R) -> DiceEvaluation {
    eval_with_rand(input, rand).unwrap_or_else(|_| panic!("could not evaluate `{input}`"))
}

fn assert_value_is(evaluation: &DiceEvaluation, expected: i64) {
    assert!(evaluation.value.eqv(&Rational::from_int(expected)));
}

#[test]
fn evaluation_deterministic_evaluation() {
    let evaluation = eval_expect_rand("2 + 3", &mut RiggedRandom::new([]));
    assert_value_is(&evaluation, 5);
}

#[test]
fn mod_deterministic_evaluation() {
    let evaluation = eval_expect_rand("2 + 3", &mut RiggedRandom::new([]));
    assert_value_is(&evaluation, 5);
}

#[test]
fn evaluation_dice_evaluation() {
    let evaluation = eval_expect_rand("2d6", &mut RiggedRandom::new([3, 6]));
    assert_value_is(&evaluation, 9);
    assert_eq!(
        vec![3, 6],
        evaluation.ungrouped_rolls().iter().map(|it| it.original_value).collect::<Vec<_>>()
    );
}

#[test]
fn mod_dice_evaluation() {
    let evaluation = eval_expect_rand("2d6", &mut RiggedRandom::new([3, 6]));
    assert_value_is(&evaluation, 9);
    assert_eq!(
        vec![3, 6],
        evaluation.ungrouped_rolls().iter().map(|it| it.original_value).collect::<Vec<_>>()
    );
}

#[test]
fn rigged_random_test() {
    let rolls = eval_with_rand("3d6", &mut RiggedRandom::new([3, 5, 2])).unwrap();

    assert_value_is(&rolls, 10);
    assert_eq!(
        vec![3, 5, 2],
        rolls.ungrouped_rolls().iter().map(|it| it.original_value).collect::<Vec<_>>()
    );
}

#[test]
fn seeded_evaluation_is_reproducible() {
    let first = eval_with_seed("4d8 + 2", 2024).unwrap();
    let second = eval_with_seed("4d8 + 2", 2024).unwrap();
    assert!(first.value.eqv(&second.value));
    assert_eq!(
        first.ungrouped_rolls().iter().map(|it| it.original_value).collect::<Vec<_>>(),
        second.ungrouped_rolls().iter().map(|it| it.original_value).collect::<Vec<_>>()
    );
}

#[test]
fn thread_rng_evaluation_stays_in_range() {
    let evaluation = saikoro::evaluate("2d6").unwrap();
    let value = evaluation.value;
    assert!(Rational::from_int(2).le(&value));
    assert!(value.le(&Rational::from_int(12)));
}
