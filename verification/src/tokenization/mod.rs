//! Lexical analysis: token types, token flags, and the lazy token stream.

pub mod flags;
pub mod stream;

pub use flags::TokenFlags;
pub use stream::BackingTokenStream;
pub use stream::TokenStream;

use crate::operator::comp_op::CompOperator;
use crate::operator::OpToken;
use crate::rational::Rat;
use crate::rational::Rational;
use vstd::prelude::*;

verus! {

/// The lexical category of a token.
#[derive(Debug, PartialEq, Eq, Clone, Copy, Structural)]
pub enum TokenType {
    Number,
    Operator,
    ComparisonOperator,
    OpenDelimiter,
    CloseDelimiter,
    Whitespace,
}

pub open spec fn spec_display_name(t: TokenType) -> Seq<char> {
    match t {
        TokenType::Number => "Number"@,
        TokenType::Operator => "Operator"@,
        TokenType::ComparisonOperator => "ComparisonOperator"@,
        TokenType::OpenDelimiter => "OpenDelim"@,
        TokenType::CloseDelimiter => "CloseDelim"@,
        TokenType::Whitespace => "Whitespace"@,
    }
}

impl TokenType {
    /// The name under which the category is reported in diagnostics.
    pub fn display_name(self) -> (r: &'static str)
        ensures
            r@ == spec_display_name(self),
    {
        match self {
            TokenType::Number => "Number",
            TokenType::Operator => "Operator",
            TokenType::ComparisonOperator => "ComparisonOperator",
            TokenType::OpenDelimiter => "OpenDelim",
            TokenType::CloseDelimiter => "CloseDelim",
            TokenType::Whitespace => "Whitespace",
        }
    }
}

/// One lexical token.  Whitespace is skipped by the stream and never carried
/// as a token.
#[derive(Debug, PartialEq, Eq, Clone, Copy, Structural)]
pub enum Token {
    Number(Rational),
    Operator(OpToken),
    ComparisonOperator(CompOperator),
    OpenDelimiter,
    CloseDelimiter,
}

/// The mathematical image of a token: numbers stand as their `Rat` value.
pub enum GhostToken {
    Number(Rat),
    Operator(OpToken),
    ComparisonOperator(CompOperator),
    OpenDelimiter,
    CloseDelimiter,
}

impl View for Token {
    type V = GhostToken;

    open spec fn view(&self) -> GhostToken {
        match self {
            Token::Number(r) => GhostToken::Number(r@),
            Token::Operator(op) => GhostToken::Operator(*op),
            Token::ComparisonOperator(op) => GhostToken::ComparisonOperator(*op),
            Token::OpenDelimiter => GhostToken::OpenDelimiter,
            Token::CloseDelimiter => GhostToken::CloseDelimiter,
        }
    }
}

pub open spec fn spec_token_type(t: GhostToken) -> TokenType {
    match t {
        GhostToken::Number(_) => TokenType::Number,
        GhostToken::Operator(_) => TokenType::Operator,
        GhostToken::ComparisonOperator(_) => TokenType::ComparisonOperator,
        GhostToken::OpenDelimiter => TokenType::OpenDelimiter,
        GhostToken::CloseDelimiter => TokenType::CloseDelimiter,
    }
}

impl Token {
    /// The lexical category this token belongs to.
    pub fn token_type(&self) -> (r: TokenType)
        ensures
            r == spec_token_type(self@),
    {
        match self {
            Token::Number(_) => TokenType::Number,
            Token::Operator(_) => TokenType::Operator,
            Token::ComparisonOperator(_) => TokenType::ComparisonOperator,
            Token::OpenDelimiter => TokenType::OpenDelimiter,
            Token::CloseDelimiter => TokenType::CloseDelimiter,
        }
    }
}

} // verus!
