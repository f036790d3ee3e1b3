//! Bit-set of token types, used to say which categories a grammar position
//! accepts.

use super::TokenType;
use vstd::prelude::*;

verus! {

/// The bit that stands for one token type inside a [`TokenFlags`] set.
pub open spec fn spec_flag_bit(t: TokenType) -> u8 {
    match t {
        TokenType::Number => 1u8,
        TokenType::Operator => 2u8,
        TokenType::ComparisonOperator => 4u8,
        TokenType::OpenDelimiter => 8u8,
        TokenType::CloseDelimiter => 16u8,
        TokenType::Whitespace => 32u8,
    }
}

impl TokenType {
    /// The bit this category occupies in a [`TokenFlags`] set.
    pub fn flag_bit(self) -> (b: u8)
        ensures
            b == spec_flag_bit(self),
    {
        match self {
            TokenType::Number => 1,
            TokenType::Operator => 2,
            TokenType::ComparisonOperator => 4,
            TokenType::OpenDelimiter => 8,
            TokenType::CloseDelimiter => 16,
            TokenType::Whitespace => 32,
        }
    }
}

/// A set of token types, one bit per category.
#[derive(Debug, PartialEq, Eq, Clone, Copy, Structural)]
pub struct TokenFlags(pub u8);

/// Whether the set holds the given category.
pub open spec fn spec_has_set(f: TokenFlags, t: TokenType) -> bool {
    f.0 & spec_flag_bit(t) == spec_flag_bit(t)
}

impl TokenFlags {
    /// Whether the set holds the given category.
    pub fn has_set(self, token_type: TokenType) -> (r: bool)
        ensures
            r == spec_has_set(self, token_type),
    {
        let token_val = token_type.flag_bit();
        self.0 & token_val == token_val
    }
}

impl From<TokenType> for TokenFlags {
    /// The singleton set of one category.
    fn from(value: TokenType) -> (r: TokenFlags) {
        TokenFlags(value.flag_bit())
    }
}

impl vstd::std_specs::convert::FromSpecImpl<TokenType> for TokenFlags {
    open spec fn obeys_from_spec() -> bool {
        true
    }

    open spec fn from_spec(value: TokenType) -> TokenFlags {
        TokenFlags(spec_flag_bit(value))
    }
}

impl core::ops::BitOr<TokenFlags> for TokenFlags {
    type Output = TokenFlags;

    /// The union of the two sets.
    fn bitor(self, rhs: TokenFlags) -> (r: TokenFlags) {
        TokenFlags(self.0 | rhs.0)
    }
}

impl vstd::std_specs::ops::BitOrSpecImpl<TokenFlags> for TokenFlags {
    open spec fn obeys_bitor_spec() -> bool {
        true
    }

    open spec fn bitor_req(self, rhs: TokenFlags) -> bool {
        true
    }

    open spec fn bitor_spec(self, rhs: TokenFlags) -> TokenFlags {
        TokenFlags(self.0 | rhs.0)
    }
}

impl core::ops::BitOr<TokenType> for TokenFlags {
    type Output = TokenFlags;

    /// The set widened by one category.
    fn bitor(self, rhs: TokenType) -> (r: TokenFlags) {
        TokenFlags(self.0 | rhs.flag_bit())
    }
}

impl vstd::std_specs::ops::BitOrSpecImpl<TokenType> for TokenFlags {
    open spec fn obeys_bitor_spec() -> bool {
        true
    }

    open spec fn bitor_req(self, rhs: TokenType) -> bool {
        true
    }

    open spec fn bitor_spec(self, rhs: TokenType) -> TokenFlags {
        TokenFlags(self.0 | spec_flag_bit(rhs))
    }
}

impl core::ops::BitOr<TokenType> for TokenType {
    type Output = TokenFlags;

    /// The set holding the two categories.
    fn bitor(self, rhs: TokenType) -> (r: TokenFlags) {
        TokenFlags(self.flag_bit() | rhs.flag_bit())
    }
}

impl vstd::std_specs::ops::BitOrSpecImpl<TokenType> for TokenType {
    open spec fn obeys_bitor_spec() -> bool {
        true
    }

    open spec fn bitor_req(self, rhs: TokenType) -> bool {
        true
    }

    open spec fn bitor_spec(self, rhs: TokenType) -> TokenFlags {
        TokenFlags(spec_flag_bit(self) | spec_flag_bit(rhs))
    }
}

} // verus!
