use saikoro::error::ParsingError;
use saikoro::error::TokenizationError;
use saikoro::operator::BinaryOperator;
use saikoro::operator::CompOperator;
use saikoro::operator::OpToken;
use saikoro::operator::UnaryOperator;
use saikoro::parsing::parse_tree_from;
use saikoro::parsing::Node;
use saikoro::rational::Rational;
use saikoro::tokenization::TokenStream;

fn parse_str(input: &str) -> Result<Node, ParsingError> {
    parse_tree_from(&mut TokenStream::new(input))
}

fn expect_tree(input: &str) -> Node {
    parse_str(input).unwrap_or_else(|_| panic!("could not parse `{input}`"))
}

fn expect_err_tree(input: &str) -> ParsingError {
    match parse_str(input) {
        Ok(_) => panic!("unexpected successful parse of `{input}`"),
        Err(err) => err,
    }
}

fn leaf(n: i64) -> Box<Node> {
    Box::new(Node::Leaf(Rational::from_int(n)))
}

#[test]
fn single_token() {
    assert_eq!(Node::Leaf(Rational::from_int(4)), expect_tree("4"));

    assert!(matches!(
        expect_err_tree("+"),
        ParsingError::Tokenization(TokenizationError::UnexpectedToken(_))
    ));
}

#[test]
fn simple_expression() {
    let expected = Node::Binary {
        operator: BinaryOperator::from(OpToken::Plus),
        left: leaf(1),
        right: leaf(2),
    };
    assert_eq!(expected, expect_tree("1+2"));
}

#[test]
fn complex_expression() {
    let expected = Node::Binary {
        operator: BinaryOperator::from(OpToken::Plus),
        left: Box::new(Node::Binary {
            operator: BinaryOperator::from(OpToken::Minus),
            left: Box::new(Node::Binary {
                operator: BinaryOperator::from(OpToken::Plus),
                left: Box::new(Node::ComparisonTernary {
                    comp_op: CompOperator::GreaterThan,
                    dice_left: leaf(2),
                    dice_right: leaf(6),
                    compare_to: leaf(3),
                }),
                right: Box::new(Node::Binary {
                    operator: BinaryOperator::from(OpToken::Divide),
                    left: Box::new(Node::Binary {
                        operator: BinaryOperator::from(OpToken::Multiply),
                        left: Box::new(Node::Binary {
                            operator: BinaryOperator::from(OpToken::Dice),
                            left: leaf(8),
                            right: leaf(6),
                        }),
                        right: Box::new(Node::Binary {
                            operator: BinaryOperator::from(OpToken::Power),
                            left: leaf(3),
                            right: leaf(4),
                        }),
                    }),
                    right: leaf(2),
                }),
            }),
            right: leaf(3),
        }),
        right: Box::new(Node::Unary {
            operator: UnaryOperator::try_from_token(OpToken::Minus).unwrap(),
            argument: leaf(1),
        }),
    };
    assert_eq!(expected, expect_tree("(2d6 > 3) + 8d6 * 3^4 / 2 - 3 + -1"));
}

#[test]
fn invalid_unary() {
    assert!(matches!(expect_err_tree("/4"), ParsingError::InvalidOperator(_)));
}

#[test]
fn unmatched_paren() {
    expect_err_tree("(2");
    expect_err_tree("2)");
}

#[test]
fn unmatched_comparison() {
    expect_err_tree("5 > 2");
    expect_err_tree("2d6 + 5 > 9");
}

#[test]
fn juxtaposition_multiplication() {
    let two_by_three = Node::Binary {
        operator: BinaryOperator::from(OpToken::Multiply),
        left: leaf(2),
        right: leaf(3),
    };

    assert_eq!(two_by_three, expect_tree("2 * 3"));
    assert_eq!(two_by_three, expect_tree("2(3))"));
    assert_eq!(two_by_three, expect_tree("(2)(3)"));
}
