//! Unary operators: prefix plus, minus, and the one-die dice form.

use super::function;
use super::OpToken;
use crate::error::parse_error::InvalidOperatorError;
use crate::evaluation::operand::spec_is_roll_of;
use crate::evaluation::operand::spec_value;
use crate::evaluation::operand::Operand;
use crate::evaluation::roll_types::RollGroup;
use crate::rational::rat_neg;
use crate::rational::rat_to_u32;
use crate::rational::Rat;
use crate::RangeRng;
use vstd::prelude::*;

verus! {

/// What a unary operator's evaluation promises: plus keeps the value, minus
/// negates it (both as plain numbers), and the dice form rolls one die whose
/// face count is the operand's value.
pub open spec fn spec_unary_eval(token: UnaryOpToken, a: Rat, r: Operand) -> bool {
    match token {
        UnaryOpToken::Plus => r is Number && spec_value(r) == a,
        UnaryOpToken::Minus => r is Number && spec_value(r) == rat_neg(a),
        UnaryOpToken::Dice => exists|g: RollGroup| #[trigger] spec_is_roll_of(r, g)
            && function::spec_dice_shape(g, 1, rat_to_u32(a)),
    }
}

/// An operator which takes a single operand.
#[derive(Debug, PartialEq, Eq, Clone, Copy, Structural)]
pub struct UnaryOperator {
    pub token: UnaryOpToken,
    pub binding_power: u8,
    pub direction: UnaryDirection,
}

/// The unary operator a token denotes: plus and minus bind at 7, the dice
/// form binds at 13; every current unary operator is a prefix.
pub open spec fn spec_unary_operator(token: UnaryOpToken) -> UnaryOperator {
    let binding_power = match token {
        UnaryOpToken::Plus => 7u8,
        UnaryOpToken::Minus => 7u8,
        UnaryOpToken::Dice => 13u8,
    };
    UnaryOperator { token, binding_power, direction: UnaryDirection::Prefix }
}

/// Which operator tokens have a unary form, and which unary token they carry.
pub open spec fn spec_unary_token_of(token: OpToken) -> Result<
    UnaryOpToken,
    InvalidOperatorError,
> {
    match token {
        OpToken::Plus => Ok(UnaryOpToken::Plus),
        OpToken::Minus => Ok(UnaryOpToken::Minus),
        OpToken::Dice => Ok(UnaryOpToken::Dice),
        _ => Err(InvalidOperatorError(token)),
    }
}

impl UnaryOperator {
    /// Evaluates the operator on its operand, drawing from the randomness
    /// source where the dice form needs it.
    pub fn eval<R: RangeRng>(&self, operand: Operand, rng: &mut R) -> (r: Operand)
        ensures
            spec_unary_eval(self.token, spec_value(operand), r),
            r matches Operand::Roll { id: _, data } ==> crate::evaluation::roll_types::spec_group_wf(
                data,
            ),
    {
        match self.token {
            UnaryOpToken::Plus => function::unary_plus(operand, rng),
            UnaryOpToken::Minus => function::unary_minus(operand, rng),
            UnaryOpToken::Dice => function::unary_dice(operand, rng),
        }
    }

    /// The unary operator an operator token denotes, if it has a unary form;
    /// `* / % ^` have none.
    pub fn try_from_token(token: OpToken) -> (r: Result<UnaryOperator, InvalidOperatorError>)
        ensures
            r == (match spec_unary_token_of(token) {
                Ok(t) => Result::<UnaryOperator, InvalidOperatorError>::Ok(spec_unary_operator(t)),
                Err(e) => Result::<UnaryOperator, InvalidOperatorError>::Err(e),
            }),
    {
        match UnaryOpToken::try_from_token(token) {
            Ok(t) => Ok(UnaryOperator::from(t)),
            Err(e) => Err(e),
        }
    }
}

impl From<UnaryOpToken> for UnaryOperator {
    /// The unary operator a unary token denotes, carrying its binding power
    /// and direction.
    fn from(value: UnaryOpToken) -> (r: UnaryOperator) {
        let binding_power = match value {
            UnaryOpToken::Plus => 7,
            UnaryOpToken::Minus => 7,
            UnaryOpToken::Dice => 13,
        };
        UnaryOperator { token: value, binding_power, direction: UnaryDirection::Prefix }
    }
}

impl vstd::std_specs::convert::FromSpecImpl<UnaryOpToken> for UnaryOperator {
    open spec fn obeys_from_spec() -> bool {
        true
    }

    open spec fn from_spec(value: UnaryOpToken) -> UnaryOperator {
        spec_unary_operator(value)
    }
}

/// A token which corresponds to a unary operator.
#[derive(Debug, PartialEq, Eq, Clone, Copy, Structural)]
pub enum UnaryOpToken {
    Plus,
    Minus,
    Dice,
}

impl UnaryOpToken {
    /// The unary token behind an operator token, if it has a unary form.
    pub fn try_from_token(value: OpToken) -> (r: Result<UnaryOpToken, InvalidOperatorError>)
        ensures
            r == spec_unary_token_of(value),
    {
        match value {
            OpToken::Plus => Ok(UnaryOpToken::Plus),
            OpToken::Minus => Ok(UnaryOpToken::Minus),
            OpToken::Dice => Ok(UnaryOpToken::Dice),
            _ => Err(InvalidOperatorError(value)),
        }
    }
}

/// Whether a unary operator stands before or after its operand.  No postfix
/// operator exists yet; the tag is kept for symmetry with the grammar.
#[derive(Debug, PartialEq, Eq, Clone, Copy, Structural)]
pub enum UnaryDirection {
    Prefix,
    Postfix,
}

} // verus!
