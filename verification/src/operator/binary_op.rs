//! Binary operators and their binding powers.

use super::function;
use super::OpToken;
use crate::evaluation::operand::spec_is_roll_of;
use crate::evaluation::operand::spec_value;
use crate::evaluation::operand::Operand;
use crate::evaluation::roll_types::RollGroup;
use crate::rational::rat_add;
use crate::rational::rat_div;
use crate::rational::rat_mul;
use crate::rational::rat_pow;
use crate::rational::rat_rem;
use crate::rational::rat_sub;
use crate::rational::rat_to_u32;
use crate::rational::Rat;
use crate::RangeRng;
use vstd::prelude::*;

verus! {

/// What a binary operator's evaluation promises.  The arithmetic tokens
/// yield the stated exact rational as a plain number; the dice token yields
/// a fresh roll group shaped by the two operands.
pub open spec fn spec_binary_eval(token: OpToken, a: Rat, b: Rat, r: Operand) -> bool {
    match token {
        OpToken::Plus => r is Number && spec_value(r) == rat_add(a, b),
        OpToken::Minus => r is Number && spec_value(r) == rat_sub(a, b),
        OpToken::Multiply => r is Number && spec_value(r) == rat_mul(a, b),
        OpToken::Divide => r is Number && spec_value(r) == rat_div(a, b),
        OpToken::Modulus => r is Number && spec_value(r) == rat_rem(a, b),
        OpToken::Power => r is Number && spec_value(r) == rat_pow(a, b),
        OpToken::Dice => exists|g: RollGroup| #[trigger] spec_is_roll_of(r, g)
            && function::spec_dice_shape(g, rat_to_u32(a), rat_to_u32(b)),
    }
}

/// An operator which takes two operands.
#[derive(Debug, PartialEq, Eq, Clone, Copy, Structural)]
pub struct BinaryOperator {
    pub token: OpToken,
    pub binding_power: BindingPower,
}

/// The binding power a binary use of each token carries.  Addition and
/// subtraction bind loosest, then multiplication, division and modulus, then
/// power (right-associative: its right side is lower than its left), and the
/// dice operator binds tightest of all binary operators.
pub open spec fn spec_binary_operator(token: OpToken) -> BinaryOperator {
    let binding_power = match token {
        OpToken::Plus => BindingPower { left: 1u8, right: 2u8 },
        OpToken::Minus => BindingPower { left: 1u8, right: 2u8 },
        OpToken::Multiply => BindingPower { left: 3u8, right: 4u8 },
        OpToken::Divide => BindingPower { left: 3u8, right: 4u8 },
        OpToken::Modulus => BindingPower { left: 3u8, right: 4u8 },
        OpToken::Power => BindingPower { left: 6u8, right: 5u8 },
        OpToken::Dice => BindingPower { left: 11u8, right: 12u8 },
    };
    BinaryOperator { token, binding_power }
}

impl BinaryOperator {
    /// Evaluates the operator on the two operands, drawing from the
    /// randomness source where the dice operator needs it.
    pub fn eval<R: RangeRng>(&self, lhs: Operand, rhs: Operand, random: &mut R) -> (r: Operand)
        ensures
            spec_binary_eval(self.token, spec_value(lhs), spec_value(rhs), r),
            r matches Operand::Roll { id: _, data } ==> crate::evaluation::roll_types::spec_group_wf(
                data,
            ),
    {
        match self.token {
            OpToken::Plus => function::add(lhs, rhs, random),
            OpToken::Minus => function::subtract(lhs, rhs, random),
            OpToken::Multiply => function::multiply(lhs, rhs, random),
            OpToken::Divide => function::divide(lhs, rhs, random),
            OpToken::Modulus => function::modulo(lhs, rhs, random),
            OpToken::Power => function::power(lhs, rhs, random),
            OpToken::Dice => function::dice(lhs, rhs, random),
        }
    }
}

impl From<OpToken> for BinaryOperator {
    /// The binary operator a token denotes, carrying its binding power.
    fn from(token: OpToken) -> (r: BinaryOperator) {
        let binding_power = match token {
            OpToken::Plus => BindingPower::new(1, 2),
            OpToken::Minus => BindingPower::new(1, 2),
            OpToken::Multiply => BindingPower::new(3, 4),
            OpToken::Divide => BindingPower::new(3, 4),
            OpToken::Modulus => BindingPower::new(3, 4),
            OpToken::Power => BindingPower::new(6, 5),
            OpToken::Dice => BindingPower::new(11, 12),
        };
        BinaryOperator { token, binding_power }
    }
}

impl vstd::std_specs::convert::FromSpecImpl<OpToken> for BinaryOperator {
    open spec fn obeys_from_spec() -> bool {
        true
    }

    open spec fn from_spec(token: OpToken) -> BinaryOperator {
        spec_binary_operator(token)
    }
}

/// The pair of binding powers an operator carries: how tightly it holds its
/// left and its right operand.
#[derive(Debug, PartialEq, Eq, Clone, Copy, Structural)]
pub struct BindingPower {
    pub left: u8,
    pub right: u8,
}

impl BindingPower {
    /// A binding-power pair from its two sides.
    pub fn new(left: u8, right: u8) -> (r: BindingPower)
        ensures
            r == (BindingPower { left, right }),
    {
        BindingPower { left, right }
    }
}

} // verus!
