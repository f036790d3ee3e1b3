//! The evaluation function behind each operator: arithmetic on operand
//! values, dice rolling, and comparison filtering.

use super::comp_op::spec_comp_holds;
use super::comp_op::CompOperator;
use crate::error::evaluation_error::BadOperandError;
use crate::evaluation::operand::spec_is_roll_of;
use crate::evaluation::operand::spec_value;
use crate::evaluation::operand::Operand;
use crate::evaluation::operand::OperandType;
use crate::evaluation::roll_types::spec_group_wf;
use crate::evaluation::roll_types::Roll;
use crate::evaluation::roll_types::RollGroup;
use crate::rational::rat_add;
use crate::rational::rat_div;
use crate::rational::rat_mul;
use crate::rational::rat_neg;
use crate::rational::rat_pow;
use crate::rational::rat_rem;
use crate::rational::rat_sub;
use crate::rational::rat_to_u32;
use crate::rational::Rat;
use crate::rational::Rational;
use crate::RangeRng;
use vstd::prelude::*;

verus! {

/// Unary plus: the operand's numeric value, as a plain number.
pub fn unary_plus<R: RangeRng>(operand: Operand, _random: &mut R) -> (r: Operand)
    ensures
        r is Number,
        spec_value(r) == spec_value(operand),
{
    operand.into_number()
}

/// Unary minus: the negated numeric value; a roll's identity is lost.
pub fn unary_minus<R: RangeRng>(operand: Operand, _random: &mut R) -> (r: Operand)
    ensures
        r is Number,
        spec_value(r) == rat_neg(spec_value(operand)),
{
    let v = operand.into_value();
    Operand::Number(v.neg())
}

/// Unary dice: one die whose face count is the operand's value; `d6` rolls a
/// single six-sided die.
pub fn unary_dice<R: RangeRng>(operand: Operand, random: &mut R) -> (r: Operand)
    ensures
        r is Roll,
        r matches Operand::Roll { id: _, data } ==> spec_group_wf(data),
        exists|g: RollGroup| #[trigger] spec_is_roll_of(r, g) && spec_dice_shape(
            g,
            1,
            rat_to_u32(spec_value(operand)),
        ),
{
    let faces = operand.into_value().to_u32_clamped();
    let group = dice_roll(1, faces, random);
    Operand::from_group(group)
}

/// The sum of the two operand values, as a plain number.
pub fn add<R: RangeRng>(lhs: Operand, rhs: Operand, _random: &mut R) -> (r: Operand)
    ensures
        r is Number,
        spec_value(r) == rat_add(spec_value(lhs), spec_value(rhs)),
{
    Operand::Number(lhs.into_value().add(rhs.into_value()))
}

/// The difference of the two operand values, as a plain number.
pub fn subtract<R: RangeRng>(lhs: Operand, rhs: Operand, _random: &mut R) -> (r: Operand)
    ensures
        r is Number,
        spec_value(r) == rat_sub(spec_value(lhs), spec_value(rhs)),
{
    Operand::Number(lhs.into_value().sub(rhs.into_value()))
}

/// The product of the two operand values, as a plain number.
pub fn multiply<R: RangeRng>(lhs: Operand, rhs: Operand, _random: &mut R) -> (r: Operand)
    ensures
        r is Number,
        spec_value(r) == rat_mul(spec_value(lhs), spec_value(rhs)),
{
    Operand::Number(lhs.into_value().mul(rhs.into_value()))
}

/// The quotient of the two operand values, as a plain number; division by
/// zero yields zero.
pub fn divide<R: RangeRng>(lhs: Operand, rhs: Operand, _random: &mut R) -> (r: Operand)
    ensures
        r is Number,
        spec_value(r) == rat_div(spec_value(lhs), spec_value(rhs)),
{
    Operand::Number(lhs.into_value().div(rhs.into_value()))
}

/// The remainder of the two operand values, with the dividend's sign, as a
/// plain number; a zero divisor yields zero.
pub fn modulo<R: RangeRng>(lhs: Operand, rhs: Operand, _random: &mut R) -> (r: Operand)
    ensures
        r is Number,
        spec_value(r) == rat_rem(spec_value(lhs), spec_value(rhs)),
{
    Operand::Number(lhs.into_value().rem(rhs.into_value()))
}

/// The left value raised to the right value, as a plain number.  Beware:
/// the exponent is truncated toward zero, as `rat_pow` describes, so a
/// fractional exponent does not take a root.
pub fn power<R: RangeRng>(lhs: Operand, rhs: Operand, _random: &mut R) -> (r: Operand)
    ensures
        r is Number,
        spec_value(r) == rat_pow(spec_value(lhs), spec_value(rhs)),
{
    Operand::Number(lhs.into_value().pow(rhs.into_value()))
}

/// The shape every freshly rolled group has: the requested face count, one
/// roll per requested die (none when the face count is zero), and every roll
/// within `[1, faces]` and not removed.
pub open spec fn spec_dice_shape(g: RollGroup, count: int, faces: int) -> bool {
    &&& g.faces == faces
    &&& g@.len() == (if faces == 0 {
        0int
    } else {
        count
    })
    &&& spec_group_wf(g)
    &&& forall|i: int| 0 <= i < g@.len() ==> !(#[trigger] g@[i]).spec_removed()
}

/// The dice operator: the left value gives the number of dice, the right the
/// face count, both truncated and clamped into `u32`; a fresh roll group is
/// produced under a fresh identity.
pub fn dice<R: RangeRng>(lhs: Operand, rhs: Operand, random: &mut R) -> (r: Operand)
    ensures
        r is Roll,
        r matches Operand::Roll { id: _, data } ==> spec_group_wf(data),
        exists|g: RollGroup| #[trigger] spec_is_roll_of(r, g) && spec_dice_shape(
            g,
            rat_to_u32(spec_value(lhs)),
            rat_to_u32(spec_value(rhs)),
        ),
{
    let count = lhs.into_value().to_u32_clamped();
    let faces = rhs.into_value().to_u32_clamped();
    let group = dice_roll(count, faces, random);
    Operand::from_group(group)
}

/// Rolls `count` dice of `faces` faces each, drawing every die from the
/// randomness source in order.  A zero face count yields an empty group, as
/// no die could produce a value.
pub fn dice_roll<R: RangeRng>(count: u32, faces: u32, random: &mut R) -> (r: RollGroup)
    ensures
        spec_dice_shape(r, count as int, faces as int),
{
    let mut rolls: Vec<Roll> = Vec::new();
    if faces >= 1 {
        let mut i: u32 = 0;
        while i < count
            invariant
                faces >= 1,
                0 <= i <= count,
                rolls@.len() == i,
                forall|j: int|
                    0 <= j < rolls@.len() ==> 1 <= (#[trigger] rolls@[j]).original_value <= faces
                        && !rolls@[j].spec_removed(),
            decreases count - i,
        {
            let drawn = random.rng_range(0..faces);
            rolls.push(Roll::new(drawn + 1));
            i = i + 1;
        }
    }
    RollGroup::new(faces, rolls)
}

/// The group after one comparison filter: same rolls in the same order, each
/// also removed when its value fails the comparison against the target.
pub open spec fn spec_filtered(before: Seq<Roll>, op: CompOperator, target: Rat, after: Seq<
    Roll,
>) -> bool {
    &&& after.len() == before.len()
    &&& forall|i: int|
        0 <= i < before.len() ==> (#[trigger] after[i]).original_value
            == before[i].original_value && after[i].spec_removed() == (before[i].spec_removed()
            || !spec_comp_holds(op, before[i].original_value as int, target))
}

/// Applies a comparison filter to an operand.  The left operand must be a
/// roll: each of its rolls is tested against the right operand's numeric
/// value and removed when it fails, and the group keeps its identity.  A
/// number on the left is a type error, never a coercion.
pub fn comparison(op: CompOperator, lhs: Operand, rhs: Operand) -> (r: Result<
    Operand,
    BadOperandError,
>)
    ensures
        match lhs {
            Operand::Roll { id, data } => r matches Ok(out) && out matches Operand::Roll {
                id: out_id,
                data: out_data,
            } && out_id == id && spec_filtered(data@, op, spec_value(rhs), out_data@)
                && out_data.faces == data.faces,
            Operand::Number(_) => r == Result::<Operand, BadOperandError>::Err(
                BadOperandError {
                    operator: op,
                    argument_pos: 0u8,
                    expected: OperandType::Roll,
                    found: lhs,
                },
            ),
        },
{
    let target = rhs.into_value();
    match lhs {
        Operand::Roll { id, data } => {
            let faces = data.faces;
            let before = data.iter();
            let mut rolls: Vec<Roll> = Vec::new();
            let mut i: usize = 0;
            while i < before.len()
                invariant
                    0 <= i <= before.len(),
                    rolls@.len() == i,
                    target@ == spec_value(rhs),
                    forall|j: int|
                        0 <= j < i ==> (#[trigger] rolls@[j]).original_value
                            == before@[j].original_value && rolls@[j].spec_removed()
                            == (before@[j].spec_removed() || !spec_comp_holds(
                            op,
                            before@[j].original_value as int,
                            target@,
                        )),
                decreases before.len() - i,
            {
                let roll = before[i];
                let keep = comp_holds(op, roll.original_value, &target);
                if keep {
                    rolls.push(roll);
                } else {
                    rolls.push(roll.into_removed());
                }
                i = i + 1;
            }
            Ok(Operand::Roll { id, data: RollGroup::new(faces, rolls) })
        },
        Operand::Number(_) => Err(
            BadOperandError {
                operator: op,
                argument_pos: 0,
                expected: OperandType::Roll,
                found: lhs,
            },
        ),
    }
}

/// A comparison filter never raises a group's total: it only removes rolls,
/// and removed rolls stop counting.
pub proof fn lemma_filter_never_raises_total(
    before: Seq<Roll>,
    op: CompOperator,
    target: Rat,
    after: Seq<Roll>,
)
    requires
        spec_filtered(before, op, target, after),
    ensures
        crate::evaluation::roll_types::spec_total(after)
            <= crate::evaluation::roll_types::spec_total(before),
    decreases before.len(),
{
    if before.len() > 0 {
        assert(spec_filtered(before.drop_last(), op, target, after.drop_last()));
        lemma_filter_never_raises_total(before.drop_last(), op, target, after.drop_last());
    }
}

/// Whether one roll value survives the comparison against the target.
pub fn comp_holds(op: CompOperator, value: u32, target: &Rational) -> (r: bool)
    ensures
        r == spec_comp_holds(op, value as int, target@),
{
    let v = Rational::from_int(value as i64);
    match op {
        CompOperator::Equals => v.eqv(target),
        CompOperator::NotEquals => !v.eqv(target),
        CompOperator::GreaterThan => target.lt(&v),
        CompOperator::LessThan => v.lt(target),
        CompOperator::GreaterOrEqual => target.le(&v),
        CompOperator::LessOrEqual => v.le(target),
    }
}

} // verus!
