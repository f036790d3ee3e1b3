//! Errors found while a dice string is being tokenized.

use crate::tokenization::flags::TokenFlags;
use crate::tokenization::TokenType;
use vstd::prelude::*;

verus! {

/// Any error that can occur while a dice string is being tokenized.
#[derive(Debug, PartialEq, Eq, Clone, Copy, Structural)]
pub enum TokenizationError {
    UnknownToken(UnknownTokenError),
    UnexpectedToken(UnexpectedTokenError),
}

/// A character no lexical category matches, and the index at which it
/// stands.  The index counts characters, not bytes: a deliberate choice, so
/// that the reported character and the reported position always agree, also
/// on input that is not ASCII.
#[derive(Debug, PartialEq, Eq, Clone, Copy, Structural)]
pub struct UnknownTokenError {
    pub unknown_char: char,
    pub index: usize,
}

/// A token in a position where a different kind of token was expected;
/// `found` is `None` when the input ended instead.
#[derive(Debug, PartialEq, Eq, Clone, Copy, Structural)]
pub struct UnexpectedTokenError {
    pub found: Option<TokenType>,
    pub expected: TokenFlags,
}

} // verus!
