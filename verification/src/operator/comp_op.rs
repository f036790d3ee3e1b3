//! Comparison operators, used to filter the rolls of a dice expression.

use crate::evaluation::operand::spec_value;
use crate::evaluation::operand::Operand;
use crate::evaluation::roll_types::RollGroup;
use crate::operator::function;
use crate::rational::rat_eqv;
use crate::rational::rat_le;
use crate::rational::rat_lt;
use crate::rational::rat_of_int;
use crate::rational::rat_to_u32;
use crate::rational::Rat;
use crate::rational::Rational;
use crate::RangeRng;
use vstd::prelude::*;

verus! {

/// A comparison operator.  It is not a stand-alone binary operator: it is
/// only legal directly after a dice expression, whose rolls it filters.
#[derive(Debug, PartialEq, Eq, Clone, Copy, Structural)]
pub enum CompOperator {
    Equals,
    NotEquals,
    GreaterThan,
    LessThan,
    GreaterOrEqual,
    LessOrEqual,
}

impl CompOperator {
    /// Evaluates the dice-comparison ternary: rolls the dice the first two
    /// operands describe, then removes every roll that fails this comparison
    /// against the third operand's value.  Removed rolls keep their original
    /// value; the group's identity and face count are kept.
    pub fn eval<R: RangeRng>(
        self,
        dice_lhs: Operand,
        dice_rhs: Operand,
        compare_to: Operand,
        rand: &mut R,
    ) -> (r: Operand)
        ensures
            r is Roll,
            r matches Operand::Roll { id: _, data } ==> crate::evaluation::roll_types::spec_group_wf(
                data,
            ),
            exists|mid: RollGroup|
                #[trigger] function::spec_dice_shape(
                    mid,
                    rat_to_u32(spec_value(dice_lhs)),
                    rat_to_u32(spec_value(dice_rhs)),
                ) && (r matches Operand::Roll { id: _, data } && data.faces == mid.faces
                    && function::spec_filtered(mid@, self, spec_value(compare_to), data@)),
    {
        let count = dice_lhs.into_value().to_u32_clamped();
        let faces = dice_rhs.into_value().to_u32_clamped();
        let group = function::dice_roll(count, faces, rand);
        let ghost mid = group;
        let rolled = Operand::from_group(group);
        match function::comparison(self, rolled, compare_to) {
            Ok(out) => {
                proof {
                    assert(function::spec_dice_shape(
                        mid,
                        rat_to_u32(spec_value(dice_lhs)),
                        rat_to_u32(spec_value(dice_rhs)),
                    ));
                    if let Operand::Roll { id: _, data } = &out {
                        assert forall|i: int| 0 <= i < data@.len() implies 1 <= (
                        #[trigger] data@[i]).original_value <= data.faces by {
                            assert(data@[i].original_value == mid@[i].original_value);
                            assert(1 <= mid@[i].original_value <= mid.faces);
                        }
                    }
                }
                out
            },
            Err(_) => Operand::Number(Rational::from_int(0)),
        }
    }
}

/// The predicate one comparison applies: whether a roll of the given value
/// survives against the target.  Arithmetic being exact here, equality is
/// exact equality of rationals.
pub open spec fn spec_comp_holds(op: CompOperator, value: int, target: Rat) -> bool {
    match op {
        CompOperator::Equals => rat_eqv(rat_of_int(value), target),
        CompOperator::NotEquals => !rat_eqv(rat_of_int(value), target),
        CompOperator::GreaterThan => rat_lt(target, rat_of_int(value)),
        CompOperator::LessThan => rat_lt(rat_of_int(value), target),
        CompOperator::GreaterOrEqual => rat_le(target, rat_of_int(value)),
        CompOperator::LessOrEqual => rat_le(rat_of_int(value), target),
    }
}

} // verus!
