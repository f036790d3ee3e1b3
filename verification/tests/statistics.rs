use saikoro::evaluation::DiceEvaluation;
use saikoro::evaluation::Roll;
use saikoro::evaluation::RollGroup;
use saikoro::rational::Rational;
use saikoro::statistics::DiceExpression;
use saikoro::statistics::RollPopulationIter;

fn to_f64(r: &Rational) -> f64 {
    (r.numer() as f64) / (r.denom() as f64)
}

fn assert_approx(actual: f64, expected: f64, tolerance: f64) {
    assert!(
        (actual - expected).abs() < tolerance,
        "left: {actual}\nright: {expected}"
    );
}

fn collect_population(mut iter: RollPopulationIter) -> Vec<u32> {
    let mut out = Vec::new();
    while let Some(total) = iter.next() {
        out.push(total);
    }
    out
}

fn sorted(mut vec: Vec<u32>) -> Vec<u32> {
    vec.sort_unstable();
    vec
}

fn group_of(faces: u32, values: &[u32]) -> RollGroup {
    RollGroup::new(faces, values.iter().copied().map(Roll::new).collect())
}

#[test]
fn population_iter() {
    assert_eq!(collect_population(RollPopulationIter::new(1, 6)), vec![1, 2, 3, 4, 5, 6]);

    assert_eq!(
        collect_population(RollPopulationIter::new(2, 4)),
        vec![2, 3, 4, 5, 3, 4, 5, 6, 4, 5, 6, 7, 5, 6, 7, 8]
    );

    assert_eq!(
        sorted(collect_population(RollPopulationIter::new(2, 6))),
        vec![
            2, 3, 3, 4, 4, 4, 5, 5, 5, 5, 6, 6, 6, 6, 6, 7, 7, 7, 7, 7, 7, 8, 8, 8, 8, 8, 9, 9,
            9, 9, 10, 10, 10, 11, 11, 12
        ]
    );

    assert_eq!(
        sorted(collect_population(RollPopulationIter::new(3, 4))),
        vec![
            3, 4, 4, 4, 5, 5, 5, 5, 5, 5, 6, 6, 6, 6, 6, 6, 6, 6, 6, 6, 7, 7, 7, 7, 7, 7, 7, 7,
            7, 7, 7, 7, 8, 8, 8, 8, 8, 8, 8, 8, 8, 8, 8, 8, 9, 9, 9, 9, 9, 9, 9, 9, 9, 9, 10,
            10, 10, 10, 10, 10, 11, 11, 11, 12
        ]
    );
}

#[test]
fn mean() {
    assert_approx(to_f64(&DiceExpression::new(2, 6).mean()), 7.0, 1e-12);
}

#[test]
fn stdev() {
    assert_approx(to_f64(&DiceExpression::new(2, 6).stdev()), 2.41522945769824, 1e-4);
}

#[test]
fn z_score() {
    assert_approx(to_f64(&group_of(6, &[6, 6]).z_score()), 2.07019667802706, 1e-4);
}

#[test]
fn mean_z_score() {
    let first = group_of(6, &[5, 3]);
    let second = group_of(4, &[3, 4]);
    let total = first.total() + second.total();

    let evaluation = DiceEvaluation {
        value: Rational::from_int(total as i64),
        roll_groups: vec![first, second],
    };

    assert_approx(to_f64(&evaluation.mean_z_score()), 0.839475199836382, 1e-4);
}

#[test]
fn population_size_counts_outcomes() {
    assert_eq!(DiceExpression::new(2, 6).population_size(), 36);
    assert_eq!(DiceExpression::new(3, 4).population_size(), 64);
}

#[test]
fn observed_means() {
    let group = RollGroup::new(6, vec![Roll::new(5), Roll::new(3).into_removed(), Roll::new(4)]);
    assert_approx(to_f64(&group.mean()), 4.5, 1e-12);
    assert_approx(to_f64(&group.mean_raw()), 4.0, 1e-12);
}

#[test]
fn extreme_rolls() {
    assert!(group_of(6, &[6, 6, 6]).is_max_roll());
    assert!(!group_of(6, &[6, 5, 6]).is_max_roll());
    assert!(group_of(6, &[1, 1]).is_min_roll());
    assert!(!group_of(6, &[1, 2]).is_min_roll());
}
