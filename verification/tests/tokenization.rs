use saikoro::operator::OpToken;
use saikoro::rational::Rational;
use saikoro::tokenization::flags::TokenFlags;
use saikoro::tokenization::Token;
use saikoro::tokenization::TokenStream;
use saikoro::tokenization::TokenType;

fn collect_tokens(input: &str) -> Vec<Token> {
    let mut stream = TokenStream::new(input);
    let mut tokens = Vec::new();
    while let Some(item) = stream.next() {
        tokens.push(item.expect("unexpected tokenization error"));
    }
    tokens
}

#[test]
fn tokenization_type_from_token() {
    assert_eq!(Token::Number(Rational::from_int(3)).token_type(), TokenType::Number);
    assert_eq!(Token::Operator(OpToken::Plus).token_type(), TokenType::Operator);
    assert_eq!(Token::OpenDelimiter.token_type(), TokenType::OpenDelimiter);
    assert_eq!(Token::CloseDelimiter.token_type(), TokenType::CloseDelimiter);
}

#[test]
fn mod_type_from_token() {
    assert_eq!(Token::Number(Rational::from_int(3)).token_type(), TokenType::Number);
    assert_eq!(Token::Operator(OpToken::Plus).token_type(), TokenType::Operator);
    assert_eq!(Token::OpenDelimiter.token_type(), TokenType::OpenDelimiter);
    assert_eq!(Token::CloseDelimiter.token_type(), TokenType::CloseDelimiter);
}

#[test]
fn flags_bitor() {
    assert_eq!(TokenFlags(0b0_0011), TokenType::Number | TokenType::Operator);
    assert_eq!(TokenFlags(0b0_1011), TokenFlags(0b0_0011) | TokenType::OpenDelimiter);
    assert_eq!(TokenFlags(0b1111), TokenFlags(0b1100) | TokenFlags(0b0011));
}

#[test]
fn bit_or() {
    assert_eq!(TokenFlags(0b0_0011), TokenType::Number | TokenType::Operator);
    assert_eq!(TokenFlags(0b0_1011), TokenFlags(0b0_0011) | TokenType::OpenDelimiter);
    assert_eq!(TokenFlags(0b1111), TokenFlags(0b1100) | TokenFlags(0b0011));
}

#[test]
fn tokenization_whitespace() {
    assert_eq!(collect_tokens("1+2"), collect_tokens("1 + 2"));
}

#[test]
fn stream_whitespace() {
    assert_eq!(collect_tokens("1+2"), collect_tokens("1 + 2"));
}

#[test]
fn tokenization_construction() {
    assert_eq!(
        collect_tokens("2+3-5"),
        vec![
            Token::Number(Rational::from_int(2)),
            Token::Operator(OpToken::Plus),
            Token::Number(Rational::from_int(3)),
            Token::Operator(OpToken::Minus),
            Token::Number(Rational::from_int(5)),
        ]
    );
}

#[test]
fn stream_construction() {
    assert_eq!(
        collect_tokens("2+3-5"),
        vec![
            Token::Number(Rational::from_int(2)),
            Token::Operator(OpToken::Plus),
            Token::Number(Rational::from_int(3)),
            Token::Operator(OpToken::Minus),
            Token::Number(Rational::from_int(5)),
        ]
    );
}

#[test]
fn tokenization_peek() {
    let mut stream = TokenStream::new("2+3");
    assert_eq!(stream.peek().unwrap().unwrap(), Token::Number(Rational::from_int(2)));
    assert_eq!(stream.next().unwrap().unwrap(), Token::Number(Rational::from_int(2)));
    assert_eq!(stream.next().unwrap().unwrap(), Token::Operator(OpToken::Plus));
}

#[test]
fn stream_peek() {
    let mut stream = TokenStream::new("2+3");
    assert_eq!(stream.peek().unwrap().unwrap(), Token::Number(Rational::from_int(2)));
    assert_eq!(stream.next().unwrap().unwrap(), Token::Number(Rational::from_int(2)));
    assert_eq!(stream.next().unwrap().unwrap(), Token::Operator(OpToken::Plus));
}

#[test]
fn tokenization_consume_ok() {
    let mut stream = TokenStream::new("1");
    assert!(stream.consume().is_ok());
}

#[test]
fn stream_consume_ok() {
    let mut stream = TokenStream::new("1");
    assert!(stream.consume().is_ok());
}

#[test]
fn tokenization_consume_err() {
    let mut stream = TokenStream::new("\u{00c9}\u{00a7}");
    assert!(stream.consume().is_err());
}

#[test]
fn stream_consume_err() {
    let mut stream = TokenStream::new("\u{00c9}\u{00a7}");
    assert!(stream.consume().is_err());
}

#[test]
fn tokenization_expecting() {
    let mut stream = TokenStream::new("3+5");
    assert!(stream.consume_expecting(TokenType::Number.into()).is_ok());
    assert!(stream.consume_expecting(TokenType::Operator.into()).is_ok());
    assert!(stream.consume_expecting(TokenType::OpenDelimiter.into()).is_err());
}

#[test]
fn stream_expecting() {
    let mut stream = TokenStream::new("3+5");
    assert!(stream.consume_expecting(TokenType::Number.into()).is_ok());
    assert!(stream.consume_expecting(TokenType::Operator.into()).is_ok());
    assert!(stream.consume_expecting(TokenType::OpenDelimiter.into()).is_err());
}
