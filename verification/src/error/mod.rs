//! The error taxonomy: tokenization errors, parsing errors (which wrap
//! them), and evaluation errors (which wrap both).

pub mod evaluation_error;
pub mod parse_error;
pub mod tokenization_error;

pub use evaluation_error::BadOperandError;
pub use evaluation_error::EvaluationError;
pub use parse_error::InvalidOperatorError;
pub use parse_error::ParsingError;
pub use parse_error::UnaryWrongDirectionError;
pub use parse_error::UnmatchedCloseDelimiterError;
pub use parse_error::UnmatchedComparisonError;
pub use tokenization_error::TokenizationError;
pub use tokenization_error::UnexpectedTokenError;
pub use tokenization_error::UnknownTokenError;
