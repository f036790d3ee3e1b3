//! Errors found while an expression tree is being evaluated.

use super::parse_error::ParsingError;
use super::tokenization_error::TokenizationError;
use crate::evaluation::operand::Operand;
use crate::evaluation::operand::OperandType;
use crate::operator::comp_op::CompOperator;
use vstd::prelude::*;

verus! {

/// Any error that can occur while a dice string is evaluated, including any
/// error of the parser or tokenizer beneath.
#[derive(Debug, PartialEq, Clone)]
pub enum EvaluationError {
    Tokenization(TokenizationError),
    Parsing(ParsingError),
    FilterNumber(BadOperandError),
}

/// An operand of the wrong type handed to an operator: the operator, the
/// position of the offending argument, the type that position expects, and
/// the operand found there.
#[derive(Debug, PartialEq, Clone)]
pub struct BadOperandError {
    pub operator: CompOperator,
    pub argument_pos: u8,
    pub expected: OperandType,
    pub found: Operand,
}

} // verus!
