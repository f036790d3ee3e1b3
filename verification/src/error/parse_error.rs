//! Errors found while a token stream is being parsed.

use super::tokenization_error::TokenizationError;
use crate::operator::comp_op::CompOperator;
use crate::operator::unary_op::UnaryDirection;
use crate::operator::unary_op::UnaryOperator;
use crate::operator::OpToken;
use vstd::prelude::*;

verus! {

/// Any error that can occur while a dice string is being parsed, including
/// any error of the tokenizer beneath.
#[derive(Debug, PartialEq, Eq, Clone, Copy, Structural)]
pub enum ParsingError {
    Tokenization(TokenizationError),
    InvalidOperator(InvalidOperatorError),
    UnaryWrongDirection(UnaryWrongDirectionError),
    UnmatchedCloseDelimiter(UnmatchedCloseDelimiterError),
    UnmatchedComparison(UnmatchedComparisonError),
}

/// A prefix operator found in postfix position or the other way round.  No
/// postfix operator exists yet, so this error is reserved for operators to
/// come.
#[derive(Debug, PartialEq, Eq, Clone, Copy, Structural)]
pub struct UnaryWrongDirectionError {
    pub operator: UnaryOperator,
    pub expected_direction: UnaryDirection,
}

/// An operator that cannot be used as a unary operator.
#[derive(Debug, PartialEq, Eq, Clone, Copy, Structural)]
pub struct InvalidOperatorError(pub OpToken);

/// A closing parenthesis with no open parenthesis to match.
#[derive(Debug, PartialEq, Eq, Clone, Copy, Structural)]
pub struct UnmatchedCloseDelimiterError;

/// A comparison operator that does not directly follow a dice expression.
#[derive(Debug, PartialEq, Eq, Clone, Copy, Structural)]
pub struct UnmatchedComparisonError(pub CompOperator);

} // verus!
