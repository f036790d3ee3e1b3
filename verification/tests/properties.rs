use saikoro::error::EvaluationError;
use saikoro::error::ParsingError;
use saikoro::error::TokenizationError;
use saikoro::eval_with_rand;
use saikoro::eval_with_seed;
use saikoro::evaluation::Operand;
use saikoro::evaluation::OperandType;
use saikoro::operator::comp_op::CompOperator;
use saikoro::operator::function;
use saikoro::rational::Rational;
use saikoro::RangeRng;
use std::collections::VecDeque;

struct RiggedRandom {
    roll_queue: VecDeque<u32>,
}

impl RiggedRandom {
    fn new<I: IntoIterator<Item = u32>>(values: I) -> Self {
        Self { roll_queue: values.into_iter().map(|it| it.saturating_sub(1)).collect() }
    }
}

impl RangeRng for RiggedRandom {
    fn rng_range(&mut self, range: std::ops::Range<u32>) -> u32 {
        self.roll_queue.pop_front().expect("roll queue empty!").clamp(range.start, range.end - 1)
    }
}

fn eval_value(input: &str) -> Rational {
    eval_with_rand(input, &mut RiggedRandom::new([])).unwrap().value
}

#[test]
fn power_is_right_associative() {
    assert!(eval_value("2^3^3").eqv(&Rational::from_int(134217728)));
}

#[test]
fn subtraction_is_left_associative() {
    assert!(eval_value("5-4-2").eqv(&Rational::from_int(-1)));
}

#[test]
fn juxtaposition_evaluates_as_multiplication() {
    assert!(eval_value("2(3)").eqv(&Rational::from_int(6)));
    assert!(eval_value("(2)(3)").eqv(&Rational::from_int(6)));
    assert!(eval_value("2*3").eqv(&Rational::from_int(6)));
}

#[test]
fn rolls_stay_within_faces() {
    let evaluation = eval_with_seed("10d6", 7).unwrap();
    let rolls = evaluation.ungrouped_rolls();
    assert_eq!(rolls.len(), 10);
    for roll in rolls {
        assert!(1 <= roll.original_value && roll.original_value <= 6);
    }
}

#[test]
fn rigged_sequence_is_replayed_in_order() {
    let evaluation = eval_with_rand("3d6", &mut RiggedRandom::new([3, 5, 2])).unwrap();
    assert!(evaluation.value.eqv(&Rational::from_int(10)));
    assert_eq!(
        vec![3, 5, 2],
        evaluation.ungrouped_rolls().iter().map(|it| it.original_value).collect::<Vec<_>>()
    );
}

#[test]
fn filter_keeps_original_values_of_removed_rolls() {
    let evaluation = eval_with_rand("5d6 > 3", &mut RiggedRandom::new([3, 4, 6, 1, 1])).unwrap();
    let rolls = evaluation.ungrouped_rolls();
    let surviving: Vec<u32> =
        rolls.iter().filter(|it| !it.is_removed()).map(|it| it.original_value).collect();
    let originals: Vec<u32> = rolls.iter().map(|it| it.original_value).collect();

    assert_eq!(surviving, vec![4, 6]);
    assert_eq!(originals, vec![3, 4, 6, 1, 1]);
    assert!(evaluation.value.eqv(&Rational::from_int(10)));
    assert_eq!(evaluation.roll_groups[0].total(), 10);
}

#[test]
fn comparing_a_plain_number_is_a_type_error() {
    let result = function::comparison(
        CompOperator::GreaterThan,
        Operand::Number(Rational::from_int(2)),
        Operand::Number(Rational::from_int(1)),
    );
    let err = result.expect_err("a number on the left of a comparison must be rejected");
    assert_eq!(err.operator, CompOperator::GreaterThan);
    assert_eq!(err.argument_pos, 0);
    assert_eq!(err.expected, OperandType::Roll);
}

#[test]
fn comparison_without_dice_fails_to_parse() {
    assert!(matches!(
        eval_with_rand("2 > 1", &mut RiggedRandom::new([])),
        Err(EvaluationError::Parsing(ParsingError::UnmatchedComparison(_)))
    ));
}

#[test]
fn rendered_groups_are_not_valid_expressions() {
    // The display convention `"{count}d{faces}: [v1, v2, ...]"` is for
    // reading, not for feeding back in: re-parsing it must fail rather than
    // quietly produce some value.
    assert!(eval_with_rand("2d6: [3, 4]", &mut RiggedRandom::new([3, 4])).is_err());
    assert!(eval_with_rand("2d6: [~~3~~, 4]", &mut RiggedRandom::new([3, 4])).is_err());
}

#[test]
fn empty_input_is_rejected() {
    assert!(matches!(
        eval_with_rand("", &mut RiggedRandom::new([])),
        Err(EvaluationError::Parsing(ParsingError::Tokenization(
            TokenizationError::UnexpectedToken(found)
        ))) if found.found.is_none()
    ));
    assert!(eval_with_rand("   ", &mut RiggedRandom::new([])).is_err());
}

#[test]
fn unknown_characters_are_reported_with_their_position() {
    assert!(matches!(
        eval_with_rand("2 $ 3", &mut RiggedRandom::new([])),
        Err(EvaluationError::Parsing(ParsingError::Tokenization(
            TokenizationError::UnknownToken(unknown)
        ))) if unknown.unknown_char == '$' && unknown.index == 2
    ));
}

#[test]
fn stray_close_delimiter_is_rejected() {
    assert!(matches!(
        eval_with_rand(")", &mut RiggedRandom::new([])),
        Err(EvaluationError::Parsing(ParsingError::Tokenization(
            TokenizationError::UnexpectedToken(_)
        )))
    ));
}

#[test]
fn zero_dice_yield_an_empty_group() {
    let evaluation = eval_with_rand("0d6", &mut RiggedRandom::new([])).unwrap();
    assert!(evaluation.value.eqv(&Rational::from_int(0)));
    assert_eq!(evaluation.roll_groups.len(), 1);
    assert!(evaluation.roll_groups[0].is_empty());
}

#[test]
fn one_sided_dice_always_roll_one() {
    let evaluation = eval_with_rand("3d1", &mut RiggedRandom::new([1, 1, 1])).unwrap();
    assert!(evaluation.value.eqv(&Rational::from_int(3)));
    assert!(evaluation.roll_groups[0].is_min_roll());
    assert!(evaluation.roll_groups[0].is_max_roll());
}

#[test]
fn population_statistics_match_known_values() {
    let evaluation = eval_with_rand("2d6", &mut RiggedRandom::new([6, 6])).unwrap();
    let group = &evaluation.roll_groups[0];

    let mean = group.population_mean();
    assert!(mean.eqv(&Rational::from_int(7)));

    let stdev = group.population_stdev();
    let stdev_value = (stdev.numer() as f64) / (stdev.denom() as f64);
    assert!((stdev_value - 2.4152).abs() < 1e-4);

    let z = group.z_score();
    let z_value = (z.numer() as f64) / (z.denom() as f64);
    assert!((z_value - 2.0702).abs() < 1e-4);
}
