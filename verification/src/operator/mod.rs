//! Types which represent operators.

pub mod binary_op;
pub mod comp_op;
pub mod function;
pub mod unary_op;

pub use binary_op::BindingPower;
pub use binary_op::BinaryOperator;
pub use comp_op::CompOperator;
pub use unary_op::UnaryDirection;
pub use unary_op::UnaryOpToken;
pub use unary_op::UnaryOperator;

use vstd::prelude::*;

verus! {

/// A token which corresponds to an operator symbol.
#[derive(Debug, PartialEq, Eq, Clone, Copy, Structural)]
pub enum OpToken {
    Plus,
    Minus,
    Multiply,
    Divide,
    Modulus,
    Power,
    Dice,
}

/// Whether a character is one of the operator symbols `+ - * / % ^ d D`.
pub open spec fn spec_is_op_char(c: char) -> bool {
    c == '+' || c == '-' || c == '*' || c == '/' || c == '%' || c == '^' || c == 'd' || c == 'D'
}

/// The operator token a symbol denotes; the dice symbol is case-insensitive.
pub open spec fn spec_op_token_of(c: char) -> OpToken {
    if c == '+' {
        OpToken::Plus
    } else if c == '-' {
        OpToken::Minus
    } else if c == '*' {
        OpToken::Multiply
    } else if c == '/' {
        OpToken::Divide
    } else if c == '%' {
        OpToken::Modulus
    } else if c == '^' {
        OpToken::Power
    } else {
        OpToken::Dice
    }
}

impl OpToken {
    /// Reads an operator token from its one-character symbol.
    pub fn from_symbol(c: char) -> (r: Result<OpToken, ParseOperatorError>)
        ensures
            spec_is_op_char(c) ==> r == Result::<OpToken, ParseOperatorError>::Ok(
                spec_op_token_of(c),
            ),
            !spec_is_op_char(c) ==> r == Result::<OpToken, ParseOperatorError>::Err(
                ParseOperatorError { operator: c },
            ),
    {
        match c {
            '+' => Ok(OpToken::Plus),
            '-' => Ok(OpToken::Minus),
            '*' => Ok(OpToken::Multiply),
            '/' => Ok(OpToken::Divide),
            '%' => Ok(OpToken::Modulus),
            '^' => Ok(OpToken::Power),
            'd' => Ok(OpToken::Dice),
            'D' => Ok(OpToken::Dice),
            _ => Err(ParseOperatorError { operator: c }),
        }
    }
}

/// An error returned when a symbol does not denote an operator.
#[derive(Debug, PartialEq, Eq, Clone, Copy, Structural)]
pub struct ParseOperatorError {
    pub operator: char,
}

/// Either a unary or a binary operator.
#[derive(Debug, PartialEq, Eq, Clone, Copy, Structural)]
pub enum Operator {
    Unary(UnaryOperator),
    Binary(BinaryOperator),
}

impl From<UnaryOperator> for Operator {
    /// Wraps a unary operator.
    fn from(value: UnaryOperator) -> (r: Operator) {
        Operator::Unary(value)
    }
}

impl vstd::std_specs::convert::FromSpecImpl<UnaryOperator> for Operator {
    open spec fn obeys_from_spec() -> bool {
        true
    }

    open spec fn from_spec(value: UnaryOperator) -> Operator {
        Operator::Unary(value)
    }
}

impl From<BinaryOperator> for Operator {
    /// Wraps a binary operator.
    fn from(value: BinaryOperator) -> (r: Operator) {
        Operator::Binary(value)
    }
}

impl vstd::std_specs::convert::FromSpecImpl<BinaryOperator> for Operator {
    open spec fn obeys_from_spec() -> bool {
        true
    }

    open spec fn from_spec(value: BinaryOperator) -> Operator {
        Operator::Binary(value)
    }
}

} // verus!
