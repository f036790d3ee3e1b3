use saikoro::evaluation::Operand;
use saikoro::evaluation::OperandType;
use saikoro::evaluation::Roll;
use saikoro::evaluation::RollGroup;
use saikoro::rational::Rational;

#[test]
fn remove() {
    let roll = Roll::new(5).into_removed();
    assert_eq!(roll.original_value, 5);
    assert!(roll.is_removed());
}

#[test]
fn remove_unless() {
    let should_retain = Roll::new(5).into_removed_unless(|it| it.original_value > 3);
    let should_remove = Roll::new(2).into_removed_unless(|it| it.original_value > 3);

    assert!(!should_retain.is_removed());
    assert!(should_remove.is_removed());
}

#[test]
fn value() {
    let non_zero = Roll::new(3);
    let removed_non_zero = Roll::new(2).into_removed();
    let zero = Roll::new(0);
    let removed_zero = Roll::new(0).into_removed();

    assert!(non_zero.value().is_some_and(|val| val == 3));
    assert!(removed_non_zero.value().is_none());
    assert!(zero.value().is_some_and(|val| val == 0));
    assert!(removed_zero.value().is_none());
}

#[test]
fn operand_type() {
    assert_eq!(OperandType::Number, Operand::Number(Rational::from_int(1)).operand_type());
    let rolls = vec![13].into_iter().map(Roll::new).collect();
    assert_eq!(OperandType::Roll, Operand::from(RollGroup::new(20, rolls)).operand_type());
}

#[test]
fn approx_eq() {
    assert_ne!(0.3, 0.1 + 0.2);
    let tenth = Operand::Number(Rational::from_frac(1, 10));
    let fifth = Operand::Number(Rational::from_frac(2, 10));
    let sum = Operand::Number(Rational::from_frac(1, 10).add(Rational::from_frac(2, 10)));
    assert!(Operand::Number(Rational::from_frac(3, 10)).approx_eq(&sum));
    assert!(!tenth.approx_eq(&fifth));
}

#[test]
fn groups_compare_by_total() {
    let high = RollGroup::new(6, vec![Roll::new(5), Roll::new(4)]);
    let low = RollGroup::new(20, vec![Roll::new(3)]);
    let also_low = RollGroup::new(6, vec![Roll::new(1), Roll::new(2)]);

    assert!(low == also_low);
    assert!(low < high);
    assert!(high > also_low);
}

#[test]
fn group_total_skips_removed_rolls() {
    let group = RollGroup::new(6, vec![Roll::new(5), Roll::new(3).into_removed(), Roll::new(1)]);
    assert_eq!(group.total(), 6);
    assert_eq!(group.len(), 3);
    assert!(!group.is_empty());
}
