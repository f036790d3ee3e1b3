//! Parsing token streams into expression trees by precedence climbing: each
//! binary operator carries a binding-power pair, and a subexpression closes
//! as soon as the next operator binds more loosely than the level above it.
//!
//! The whole algorithm is mirrored by the ghost parser `spec_parse` /
//! `spec_parse_loop` over the scanner's character positions, so the tree a
//! successful parse returns, the error a failing parse reports, and the
//! position the stream is left at are all functions of the input text.

use crate::error::parse_error::InvalidOperatorError;
use crate::error::parse_error::ParsingError;
use crate::error::parse_error::UnaryWrongDirectionError;
use crate::error::parse_error::UnmatchedCloseDelimiterError;
use crate::error::parse_error::UnmatchedComparisonError;
use crate::error::tokenization_error::TokenizationError;
use crate::error::tokenization_error::UnexpectedTokenError;
use crate::error::tokenization_error::UnknownTokenError;
use crate::operator::binary_op::spec_binary_operator;
use crate::operator::unary_op::spec_unary_operator;
use crate::operator::unary_op::spec_unary_token_of;
use crate::operator::BinaryOperator;
use crate::operator::CompOperator;
use crate::operator::OpToken;
use crate::operator::UnaryDirection;
use crate::operator::UnaryOperator;
use crate::rational::Rat;
use crate::rational::Rational;
use crate::tokenization::flags::spec_flag_bit;
use crate::tokenization::flags::spec_has_set;
use crate::tokenization::spec_token_type;
use crate::tokenization::stream::spec_scan;
use crate::tokenization::stream::ScanStep;
use crate::tokenization::GhostToken;
use crate::tokenization::Token;
use crate::tokenization::TokenFlags;
use crate::tokenization::TokenStream;
use crate::tokenization::TokenType;
use vstd::prelude::*;

verus! {

/// A parsed expression tree.  Each node owns its children outright.
#[derive(Debug, PartialEq)]
pub enum Node {
    Binary { operator: BinaryOperator, left: Box<Node>, right: Box<Node> },
    Unary { operator: UnaryOperator, argument: Box<Node> },
    ComparisonTernary {
        comp_op: CompOperator,
        dice_left: Box<Node>,
        dice_right: Box<Node>,
        compare_to: Box<Node>,
    },
    Leaf(Rational),
}

/// The mathematical image of a tree: leaves stand as their `Rat` value.
pub enum GNode {
    Binary { operator: BinaryOperator, left: Box<GNode>, right: Box<GNode> },
    Unary { operator: UnaryOperator, argument: Box<GNode> },
    ComparisonTernary {
        comp_op: CompOperator,
        dice_left: Box<GNode>,
        dice_right: Box<GNode>,
        compare_to: Box<GNode>,
    },
    Leaf(Rat),
}

/// The mathematical image of a parsed tree.
pub open spec fn node_view(n: Node) -> GNode
    decreases n,
{
    match n {
        Node::Leaf(v) => GNode::Leaf(v@),
        Node::Unary { operator, argument } => GNode::Unary {
            operator,
            argument: Box::new(node_view(*argument)),
        },
        Node::Binary { operator, left, right } => GNode::Binary {
            operator,
            left: Box::new(node_view(*left)),
            right: Box::new(node_view(*right)),
        },
        Node::ComparisonTernary { comp_op, dice_left, dice_right, compare_to } => GNode::ComparisonTernary {
            comp_op,
            dice_left: Box::new(node_view(*dice_left)),
            dice_right: Box::new(node_view(*dice_right)),
            compare_to: Box::new(node_view(*compare_to)),
        },
    }
}

/// Every operator in the tree carries the binding power its token denotes,
/// and every unary operator is a prefix: the shape every parsed tree has.
pub open spec fn node_wf(n: Node) -> bool
    decreases n,
{
    match n {
        Node::Leaf(_) => true,
        Node::Unary { operator, argument } => operator == spec_unary_operator(operator.token)
            && node_wf(*argument),
        Node::Binary { operator, left, right } => operator == spec_binary_operator(operator.token)
            && node_wf(*left) && node_wf(*right),
        Node::ComparisonTernary { comp_op: _, dice_left, dice_right, compare_to } => node_wf(
            *dice_left,
        ) && node_wf(*dice_right) && node_wf(*compare_to),
    }
}

/// The token categories that may open an operand: a number, a prefix
/// operator, or an opening parenthesis.
pub open spec fn spec_start_flags() -> TokenFlags {
    TokenFlags(
        spec_flag_bit(TokenType::Number) | spec_flag_bit(TokenType::Operator) | spec_flag_bit(
            TokenType::OpenDelimiter,
        ),
    )
}

/// The singleton category set a closing parenthesis is demanded from.
pub open spec fn spec_close_flags() -> TokenFlags {
    TokenFlags(spec_flag_bit(TokenType::CloseDelimiter))
}

/// The singleton category set a comparison operator is demanded from.
pub open spec fn spec_comparison_flags() -> TokenFlags {
    TokenFlags(spec_flag_bit(TokenType::ComparisonOperator))
}

/// Which categories the operand-opening set holds.
pub proof fn lemma_start_flags()
    ensures
        spec_has_set(spec_start_flags(), TokenType::Number),
        spec_has_set(spec_start_flags(), TokenType::Operator),
        spec_has_set(spec_start_flags(), TokenType::OpenDelimiter),
        !spec_has_set(spec_start_flags(), TokenType::CloseDelimiter),
        !spec_has_set(spec_start_flags(), TokenType::ComparisonOperator),
        !spec_has_set(spec_start_flags(), TokenType::Whitespace),
{
    assert((1u8 | 2u8 | 8u8) & 1u8 == 1u8) by (bit_vector);
    assert((1u8 | 2u8 | 8u8) & 2u8 == 2u8) by (bit_vector);
    assert((1u8 | 2u8 | 8u8) & 8u8 == 8u8) by (bit_vector);
    assert((1u8 | 2u8 | 8u8) & 16u8 != 16u8) by (bit_vector);
    assert((1u8 | 2u8 | 8u8) & 4u8 != 4u8) by (bit_vector);
    assert((1u8 | 2u8 | 8u8) & 32u8 != 32u8) by (bit_vector);
}

/// The closing-parenthesis set holds that category alone.
pub proof fn lemma_close_flags()
    ensures
        forall|t: TokenType| #[trigger] spec_has_set(spec_close_flags(), t) <==> t
            == TokenType::CloseDelimiter,
{
    assert(16u8 & 16u8 == 16u8) by (bit_vector);
    assert(16u8 & 1u8 != 1u8) by (bit_vector);
    assert(16u8 & 2u8 != 2u8) by (bit_vector);
    assert(16u8 & 4u8 != 4u8) by (bit_vector);
    assert(16u8 & 8u8 != 8u8) by (bit_vector);
    assert(16u8 & 32u8 != 32u8) by (bit_vector);
}

/// The comparison set holds that category alone.
pub proof fn lemma_comparison_flags()
    ensures
        forall|t: TokenType| #[trigger] spec_has_set(spec_comparison_flags(), t) <==> t
            == TokenType::ComparisonOperator,
{
    assert(4u8 & 4u8 == 4u8) by (bit_vector);
    assert(4u8 & 1u8 != 1u8) by (bit_vector);
    assert(4u8 & 2u8 != 2u8) by (bit_vector);
    assert(4u8 & 8u8 != 8u8) by (bit_vector);
    assert(4u8 & 16u8 != 16u8) by (bit_vector);
    assert(4u8 & 32u8 != 32u8) by (bit_vector);
}

/// One verdict of the ghost parser: the result together with the position
/// after the parsed subexpression (meaningful on success), or `Spin` when
/// the step budget ran out.  The budget only needs to cover the number of
/// tokens consumed, so any run of the executable parser stays within it.
pub enum ParseStep {
    Done { result: Result<GNode, ParsingError>, next: int },
    Spin,
}

/// The ghost parser's operand step, mirroring `parse_min_power`: read one
/// operand (number, prefix operator with its argument, or parenthesized
/// expression), then hand over to the climbing loop.
pub open spec fn spec_parse(
    s: Seq<char>,
    pos: int,
    min_power: u8,
    ctx: ParseContext,
    fuel: nat,
) -> ParseStep
    decreases fuel, 1int,
{
    if fuel == 0 {
        ParseStep::Spin
    } else {
        match spec_scan(s, pos) {
            ScanStep::End => ParseStep::Done {
                result: Err(
                    ParsingError::Tokenization(
                        TokenizationError::UnexpectedToken(
                            UnexpectedTokenError { found: None, expected: spec_start_flags() },
                        ),
                    ),
                ),
                next: pos,
            },
            ScanStep::Bad { c, at } => ParseStep::Done {
                result: Err(
                    ParsingError::Tokenization(
                        TokenizationError::UnknownToken(
                            UnknownTokenError { unknown_char: c, index: at as usize },
                        ),
                    ),
                ),
                next: pos,
            },
            ScanStep::Tok { token, next } => match token {
                GhostToken::Number(v) => spec_parse_loop(
                    s,
                    next,
                    GNode::Leaf(v),
                    min_power,
                    ctx,
                    (fuel - 1) as nat,
                ),
                GhostToken::Operator(op_token) => match spec_unary_token_of(op_token) {
                    Err(e) => ParseStep::Done {
                        result: Err(ParsingError::InvalidOperator(e)),
                        next: pos,
                    },
                    Ok(ut) => {
                        let operator = spec_unary_operator(ut);
                        match spec_parse(s, next, operator.binding_power, ctx, (fuel - 1) as nat) {
                            ParseStep::Spin => ParseStep::Spin,
                            ParseStep::Done { result: Err(e), next: _ } => ParseStep::Done {
                                result: Err(e),
                                next: pos,
                            },
                            ParseStep::Done { result: Ok(argument), next: p2 } => spec_parse_loop(
                                s,
                                p2,
                                GNode::Unary { operator, argument: Box::new(argument) },
                                min_power,
                                ctx,
                                (fuel - 1) as nat,
                            ),
                        }
                    },
                },
                GhostToken::OpenDelimiter => match spec_parse(
                    s,
                    next,
                    0,
                    ParseContext { expecting_close_paren: true, ..ctx },
                    (fuel - 1) as nat,
                ) {
                    ParseStep::Spin => ParseStep::Spin,
                    ParseStep::Done { result: Err(e), next: _ } => ParseStep::Done {
                        result: Err(e),
                        next: pos,
                    },
                    ParseStep::Done { result: Ok(value), next: p2 } => match spec_scan(s, p2) {
                        ScanStep::End => ParseStep::Done {
                            result: Err(
                                ParsingError::Tokenization(
                                    TokenizationError::UnexpectedToken(
                                        UnexpectedTokenError {
                                            found: None,
                                            expected: spec_close_flags(),
                                        },
                                    ),
                                ),
                            ),
                            next: pos,
                        },
                        ScanStep::Bad { c, at } => ParseStep::Done {
                            result: Err(
                                ParsingError::Tokenization(
                                    TokenizationError::UnknownToken(
                                        UnknownTokenError { unknown_char: c, index: at as usize },
                                    ),
                                ),
                            ),
                            next: pos,
                        },
                        ScanStep::Tok { token: t2, next: p3 } => if spec_token_type(t2)
                            == TokenType::CloseDelimiter {
                            spec_parse_loop(s, p3, value, min_power, ctx, (fuel - 1) as nat)
                        } else {
                            ParseStep::Done {
                                result: Err(
                                    ParsingError::Tokenization(
                                        TokenizationError::UnexpectedToken(
                                            UnexpectedTokenError {
                                                found: Some(spec_token_type(t2)),
                                                expected: spec_close_flags(),
                                            },
                                        ),
                                    ),
                                ),
                                next: pos,
                            }
                        },
                    },
                },
                GhostToken::ComparisonOperator(_) => ParseStep::Done {
                    result: Err(
                        ParsingError::Tokenization(
                            TokenizationError::UnexpectedToken(
                                UnexpectedTokenError {
                                    found: Some(spec_token_type(token)),
                                    expected: spec_start_flags(),
                                },
                            ),
                        ),
                    ),
                    next: pos,
                },
                GhostToken::CloseDelimiter => ParseStep::Done {
                    result: Err(
                        ParsingError::Tokenization(
                            TokenizationError::UnexpectedToken(
                                UnexpectedTokenError {
                                    found: Some(spec_token_type(token)),
                                    expected: spec_start_flags(),
                                },
                            ),
                        ),
                    ),
                    next: pos,
                },
            },
        }
    }
}

/// The ghost parser's climbing loop, mirroring `parse_power_loop`: with
/// `lhs` parsed, fold in every following operator that binds at least as
/// tightly as `min_power`, the juxtaposition product, and the
/// dice-comparison ternary.
pub open spec fn spec_parse_loop(
    s: Seq<char>,
    pos: int,
    lhs: GNode,
    min_power: u8,
    ctx: ParseContext,
    fuel: nat,
) -> ParseStep
    decreases fuel, 0int,
{
    if fuel == 0 {
        ParseStep::Spin
    } else {
        match spec_scan(s, pos) {
            ScanStep::End => ParseStep::Done { result: Ok(lhs), next: pos },
            ScanStep::Bad { c, at } => ParseStep::Done {
                result: Err(
                    ParsingError::Tokenization(
                        TokenizationError::UnknownToken(
                            UnknownTokenError { unknown_char: c, index: at as usize },
                        ),
                    ),
                ),
                next: pos,
            },
            ScanStep::Tok { token, next } => match token {
                GhostToken::Number(_) => ParseStep::Done {
                    result: Err(
                        ParsingError::Tokenization(
                            TokenizationError::UnexpectedToken(
                                UnexpectedTokenError {
                                    found: Some(TokenType::Number),
                                    expected: TokenFlags(spec_flag_bit(TokenType::Operator)),
                                },
                            ),
                        ),
                    ),
                    next: pos,
                },
                GhostToken::CloseDelimiter => if ctx.expecting_close_paren {
                    ParseStep::Done { result: Ok(lhs), next: pos }
                } else {
                    ParseStep::Done {
                        result: Err(
                            ParsingError::UnmatchedCloseDelimiter(UnmatchedCloseDelimiterError),
                        ),
                        next: pos,
                    }
                },
                GhostToken::ComparisonOperator(op) => if ctx.expecting_comparison {
                    ParseStep::Done { result: Ok(lhs), next: pos }
                } else {
                    ParseStep::Done {
                        result: Err(
                            ParsingError::UnmatchedComparison(UnmatchedComparisonError(op)),
                        ),
                        next: pos,
                    }
                },
                GhostToken::OpenDelimiter => match spec_parse(
                    s,
                    next,
                    0,
                    ParseContext { expecting_close_paren: true, ..ctx },
                    (fuel - 1) as nat,
                ) {
                    ParseStep::Spin => ParseStep::Spin,
                    ParseStep::Done { result: Err(e), next: _ } => ParseStep::Done {
                        result: Err(e),
                        next: pos,
                    },
                    ParseStep::Done { result: Ok(contents), next: p2 } => match spec_scan(s, p2) {
                        ScanStep::End => ParseStep::Done {
                            result: Err(
                                ParsingError::Tokenization(
                                    TokenizationError::UnexpectedToken(
                                        UnexpectedTokenError {
                                            found: None,
                                            expected: spec_close_flags(),
                                        },
                                    ),
                                ),
                            ),
                            next: pos,
                        },
                        ScanStep::Bad { c, at } => ParseStep::Done {
                            result: Err(
                                ParsingError::Tokenization(
                                    TokenizationError::UnknownToken(
                                        UnknownTokenError { unknown_char: c, index: at as usize },
                                    ),
                                ),
                            ),
                            next: pos,
                        },
                        ScanStep::Tok { token: t2, next: p3 } => if spec_token_type(t2)
                            == TokenType::CloseDelimiter {
                            match spec_parse_loop(
                                s,
                                p3,
                                contents,
                                0,
                                ParseContext { expecting_close_paren: true, ..ctx },
                                (fuel - 1) as nat,
                            ) {
                                ParseStep::Spin => ParseStep::Spin,
                                ParseStep::Done { result: Err(e), next: _ } => ParseStep::Done {
                                    result: Err(e),
                                    next: pos,
                                },
                                ParseStep::Done { result: Ok(rhs), next: p4 } => ParseStep::Done {
                                    result: Ok(
                                        GNode::Binary {
                                            operator: spec_binary_operator(OpToken::Multiply),
                                            left: Box::new(lhs),
                                            right: Box::new(rhs),
                                        },
                                    ),
                                    next: p4,
                                },
                            }
                        } else {
                            ParseStep::Done {
                                result: Err(
                                    ParsingError::Tokenization(
                                        TokenizationError::UnexpectedToken(
                                            UnexpectedTokenError {
                                                found: Some(spec_token_type(t2)),
                                                expected: spec_close_flags(),
                                            },
                                        ),
                                    ),
                                ),
                                next: pos,
                            }
                        },
                    },
                },
                GhostToken::Operator(op_token) => {
                    let op = spec_binary_operator(op_token);
                    if op.binding_power.left < min_power {
                        ParseStep::Done { result: Ok(lhs), next: pos }
                    } else if op_token == OpToken::Dice {
                        match spec_parse(
                            s,
                            next,
                            op.binding_power.right,
                            ParseContext { expecting_comparison: true, ..ctx },
                            (fuel - 1) as nat,
                        ) {
                            ParseStep::Spin => ParseStep::Spin,
                            ParseStep::Done { result: Err(e), next: _ } => ParseStep::Done {
                                result: Err(e),
                                next: pos,
                            },
                            ParseStep::Done { result: Ok(rhs), next: p2 } => match spec_scan(
                                s,
                                p2,
                            ) {
                                ScanStep::Tok {
                                    token: GhostToken::ComparisonOperator(comp_op),
                                    next: p3,
                                } => match spec_parse(s, p3, 0, ctx, (fuel - 1) as nat) {
                                    ParseStep::Spin => ParseStep::Spin,
                                    ParseStep::Done { result: Err(e), next: _ } => ParseStep::Done {
                                        result: Err(e),
                                        next: pos,
                                    },
                                    ParseStep::Done {
                                        result: Ok(compare_to),
                                        next: p4,
                                    } => spec_parse_loop(
                                        s,
                                        p4,
                                        GNode::ComparisonTernary {
                                            comp_op,
                                            dice_left: Box::new(lhs),
                                            dice_right: Box::new(rhs),
                                            compare_to: Box::new(compare_to),
                                        },
                                        min_power,
                                        ctx,
                                        (fuel - 1) as nat,
                                    ),
                                },
                                _ => spec_parse_loop(
                                    s,
                                    p2,
                                    GNode::Binary {
                                        operator: op,
                                        left: Box::new(lhs),
                                        right: Box::new(rhs),
                                    },
                                    min_power,
                                    ctx,
                                    (fuel - 1) as nat,
                                ),
                            },
                        }
                    } else {
                        match spec_parse(s, next, op.binding_power.right, ctx, (fuel - 1) as nat) {
                            ParseStep::Spin => ParseStep::Spin,
                            ParseStep::Done { result: Err(e), next: _ } => ParseStep::Done {
                                result: Err(e),
                                next: pos,
                            },
                            ParseStep::Done { result: Ok(rhs), next: p2 } => spec_parse_loop(
                                s,
                                p2,
                                GNode::Binary {
                                    operator: op,
                                    left: Box::new(lhs),
                                    right: Box::new(rhs),
                                },
                                min_power,
                                ctx,
                                (fuel - 1) as nat,
                            ),
                        }
                    }
                },
            },
        }
    }
}

/// A verdict reached within some step budget is reached, unchanged, within
/// every larger budget.
pub proof fn lemma_parse_mono(
    s: Seq<char>,
    pos: int,
    min_power: u8,
    ctx: ParseContext,
    f1: nat,
    f2: nat,
)
    requires
        f1 <= f2,
        !(spec_parse(s, pos, min_power, ctx, f1) is Spin),
    ensures
        spec_parse(s, pos, min_power, ctx, f2) == spec_parse(s, pos, min_power, ctx, f1),
    decreases f1, 1int,
{
    if f1 > 0 {
        match spec_scan(s, pos) {
            ScanStep::End => {},
            ScanStep::Bad { .. } => {},
            ScanStep::Tok { token, next } => match token {
                GhostToken::Number(v) => {
                    lemma_parse_loop_mono(
                        s,
                        next,
                        GNode::Leaf(v),
                        min_power,
                        ctx,
                        (f1 - 1) as nat,
                        (f2 - 1) as nat,
                    );
                },
                GhostToken::Operator(op_token) => match spec_unary_token_of(op_token) {
                    Err(_) => {},
                    Ok(ut) => {
                        let operator = spec_unary_operator(ut);
                        lemma_parse_mono(
                            s,
                            next,
                            operator.binding_power,
                            ctx,
                            (f1 - 1) as nat,
                            (f2 - 1) as nat,
                        );
                        match spec_parse(s, next, operator.binding_power, ctx, (f1 - 1) as nat) {
                            ParseStep::Done { result: Ok(argument), next: p2 } => {
                                lemma_parse_loop_mono(
                                    s,
                                    p2,
                                    GNode::Unary { operator, argument: Box::new(argument) },
                                    min_power,
                                    ctx,
                                    (f1 - 1) as nat,
                                    (f2 - 1) as nat,
                                );
                            },
                            _ => {},
                        }
                    },
                },
                GhostToken::OpenDelimiter => {
                    let inner = ParseContext { expecting_close_paren: true, ..ctx };
                    lemma_parse_mono(s, next, 0, inner, (f1 - 1) as nat, (f2 - 1) as nat);
                    match spec_parse(s, next, 0, inner, (f1 - 1) as nat) {
                        ParseStep::Done { result: Ok(value), next: p2 } => match spec_scan(s, p2) {
                            ScanStep::Tok { token: t2, next: p3 } => {
                                if spec_token_type(t2) == TokenType::CloseDelimiter {
                                    lemma_parse_loop_mono(
                                        s,
                                        p3,
                                        value,
                                        min_power,
                                        ctx,
                                        (f1 - 1) as nat,
                                        (f2 - 1) as nat,
                                    );
                                }
                            },
                            _ => {},
                        },
                        _ => {},
                    }
                },
                GhostToken::ComparisonOperator(_) => {},
                GhostToken::CloseDelimiter => {},
            },
        }
    }
}

/// As [`lemma_parse_mono`], for the climbing loop.
pub proof fn lemma_parse_loop_mono(
    s: Seq<char>,
    pos: int,
    lhs: GNode,
    min_power: u8,
    ctx: ParseContext,
    f1: nat,
    f2: nat,
)
    requires
        f1 <= f2,
        !(spec_parse_loop(s, pos, lhs, min_power, ctx, f1) is Spin),
    ensures
        spec_parse_loop(s, pos, lhs, min_power, ctx, f2) == spec_parse_loop(
            s,
            pos,
            lhs,
            min_power,
            ctx,
            f1,
        ),
    decreases f1, 0int,
{
    if f1 > 0 {
        match spec_scan(s, pos) {
            ScanStep::End => {},
            ScanStep::Bad { .. } => {},
            ScanStep::Tok { token, next } => match token {
                GhostToken::Number(_) => {},
                GhostToken::CloseDelimiter => {},
                GhostToken::ComparisonOperator(_) => {},
                GhostToken::OpenDelimiter => {
                    let inner = ParseContext { expecting_close_paren: true, ..ctx };
                    lemma_parse_mono(s, next, 0, inner, (f1 - 1) as nat, (f2 - 1) as nat);
                    match spec_parse(s, next, 0, inner, (f1 - 1) as nat) {
                        ParseStep::Done { result: Ok(contents), next: p2 } => match spec_scan(
                            s,
                            p2,
                        ) {
                            ScanStep::Tok { token: t2, next: p3 } => {
                                if spec_token_type(t2) == TokenType::CloseDelimiter {
                                    lemma_parse_loop_mono(
                                        s,
                                        p3,
                                        contents,
                                        0,
                                        inner,
                                        (f1 - 1) as nat,
                                        (f2 - 1) as nat,
                                    );
                                }
                            },
                            _ => {},
                        },
                        _ => {},
                    }
                },
                GhostToken::Operator(op_token) => {
                    let op = spec_binary_operator(op_token);
                    if op.binding_power.left < min_power {
                    } else if op_token == OpToken::Dice {
                        let comp_ctx = ParseContext { expecting_comparison: true, ..ctx };
                        lemma_parse_mono(
                            s,
                            next,
                            op.binding_power.right,
                            comp_ctx,
                            (f1 - 1) as nat,
                            (f2 - 1) as nat,
                        );
                        match spec_parse(
                            s,
                            next,
                            op.binding_power.right,
                            comp_ctx,
                            (f1 - 1) as nat,
                        ) {
                            ParseStep::Done { result: Ok(rhs), next: p2 } => match spec_scan(
                                s,
                                p2,
                            ) {
                                ScanStep::Tok {
                                    token: GhostToken::ComparisonOperator(comp_op),
                                    next: p3,
                                } => {
                                    lemma_parse_mono(
                                        s,
                                        p3,
                                        0,
                                        ctx,
                                        (f1 - 1) as nat,
                                        (f2 - 1) as nat,
                                    );
                                    match spec_parse(s, p3, 0, ctx, (f1 - 1) as nat) {
                                        ParseStep::Done {
                                            result: Ok(compare_to),
                                            next: p4,
                                        } => {
                                            lemma_parse_loop_mono(
                                                s,
                                                p4,
                                                GNode::ComparisonTernary {
                                                    comp_op,
                                                    dice_left: Box::new(lhs),
                                                    dice_right: Box::new(rhs),
                                                    compare_to: Box::new(compare_to),
                                                },
                                                min_power,
                                                ctx,
                                                (f1 - 1) as nat,
                                                (f2 - 1) as nat,
                                            );
                                        },
                                        _ => {},
                                    }
                                },
                                _ => {
                                    lemma_parse_loop_mono(
                                        s,
                                        p2,
                                        GNode::Binary {
                                            operator: op,
                                            left: Box::new(lhs),
                                            right: Box::new(rhs),
                                        },
                                        min_power,
                                        ctx,
                                        (f1 - 1) as nat,
                                        (f2 - 1) as nat,
                                    );
                                },
                            },
                            _ => {},
                        }
                    } else {
                        lemma_parse_mono(
                            s,
                            next,
                            op.binding_power.right,
                            ctx,
                            (f1 - 1) as nat,
                            (f2 - 1) as nat,
                        );
                        match spec_parse(s, next, op.binding_power.right, ctx, (f1 - 1) as nat) {
                            ParseStep::Done { result: Ok(rhs), next: p2 } => {
                                lemma_parse_loop_mono(
                                    s,
                                    p2,
                                    GNode::Binary {
                                        operator: op,
                                        left: Box::new(lhs),
                                        right: Box::new(rhs),
                                    },
                                    min_power,
                                    ctx,
                                    (f1 - 1) as nat,
                                    (f2 - 1) as nat,
                                );
                            },
                            _ => {},
                        }
                    }
                },
            },
        }
    }
}

/// One step of the ghost parser, written out case by case so callers can
/// assemble it against the stream's contracts.
proof fn lemma_min_power_unfold(
    s: Seq<char>,
    pos: int,
    min_power: u8,
    ctx: ParseContext,
    fuel: nat,
)
    requires
        fuel >= 1,
    ensures
        spec_parse(s, pos, min_power, ctx, fuel) == (match spec_scan(s, pos) {
            ScanStep::End => ParseStep::Done {
                result: Err(
                    ParsingError::Tokenization(
                        TokenizationError::UnexpectedToken(
                            UnexpectedTokenError { found: None, expected: spec_start_flags() },
                        ),
                    ),
                ),
                next: pos,
            },
            ScanStep::Bad { c, at } => ParseStep::Done {
                result: Err(
                    ParsingError::Tokenization(
                        TokenizationError::UnknownToken(
                            UnknownTokenError { unknown_char: c, index: at as usize },
                        ),
                    ),
                ),
                next: pos,
            },
            ScanStep::Tok { token, next } => match token {
                GhostToken::Number(v) => spec_parse_loop(
                    s,
                    next,
                    GNode::Leaf(v),
                    min_power,
                    ctx,
                    (fuel - 1) as nat,
                ),
                GhostToken::Operator(op_token) => match spec_unary_token_of(op_token) {
                    Err(e) => ParseStep::Done {
                        result: Err(ParsingError::InvalidOperator(e)),
                        next: pos,
                    },
                    Ok(ut) => {
                        let operator = spec_unary_operator(ut);
                        match spec_parse(s, next, operator.binding_power, ctx, (fuel - 1) as nat) {
                            ParseStep::Spin => ParseStep::Spin,
                            ParseStep::Done { result: Err(e), next: _ } => ParseStep::Done {
                                result: Err(e),
                                next: pos,
                            },
                            ParseStep::Done { result: Ok(argument), next: p2 } => spec_parse_loop(
                                s,
                                p2,
                                GNode::Unary { operator, argument: Box::new(argument) },
                                min_power,
                                ctx,
                                (fuel - 1) as nat,
                            ),
                        }
                    },
                },
                GhostToken::OpenDelimiter => match spec_parse(
                    s,
                    next,
                    0,
                    ParseContext { expecting_close_paren: true, ..ctx },
                    (fuel - 1) as nat,
                ) {
                    ParseStep::Spin => ParseStep::Spin,
                    ParseStep::Done { result: Err(e), next: _ } => ParseStep::Done {
                        result: Err(e),
                        next: pos,
                    },
                    ParseStep::Done { result: Ok(value), next: p2 } => match spec_scan(s, p2) {
                        ScanStep::End => ParseStep::Done {
                            result: Err(
                                ParsingError::Tokenization(
                                    TokenizationError::UnexpectedToken(
                                        UnexpectedTokenError {
                                            found: None,
                                            expected: spec_close_flags(),
                                        },
                                    ),
                                ),
                            ),
                            next: pos,
                        },
                        ScanStep::Bad { c, at } => ParseStep::Done {
                            result: Err(
                                ParsingError::Tokenization(
                                    TokenizationError::UnknownToken(
                                        UnknownTokenError { unknown_char: c, index: at as usize },
                                    ),
                                ),
                            ),
                            next: pos,
                        },
                        ScanStep::Tok { token: t2, next: p3 } => if spec_token_type(t2)
                            == TokenType::CloseDelimiter {
                            spec_parse_loop(s, p3, value, min_power, ctx, (fuel - 1) as nat)
                        } else {
                            ParseStep::Done {
                                result: Err(
                                    ParsingError::Tokenization(
                                        TokenizationError::UnexpectedToken(
                                            UnexpectedTokenError {
                                                found: Some(spec_token_type(t2)),
                                                expected: spec_close_flags(),
                                            },
                                        ),
                                    ),
                                ),
                                next: pos,
                            }
                        },
                    },
                },
                GhostToken::ComparisonOperator(_) => ParseStep::Done {
                    result: Err(
                        ParsingError::Tokenization(
                            TokenizationError::UnexpectedToken(
                                UnexpectedTokenError {
                                    found: Some(spec_token_type(token)),
                                    expected: spec_start_flags(),
                                },
                            ),
                        ),
                    ),
                    next: pos,
                },
                GhostToken::CloseDelimiter => ParseStep::Done {
                    result: Err(
                        ParsingError::Tokenization(
                            TokenizationError::UnexpectedToken(
                                UnexpectedTokenError {
                                    found: Some(spec_token_type(token)),
                                    expected: spec_start_flags(),
                                },
                            ),
                        ),
                    ),
                    next: pos,
                },
            },
        }),
{
}

/// One step of the ghost climbing loop, written out case by case so
/// callers can assemble it against the stream's contracts.
proof fn lemma_power_loop_unfold(
    s: Seq<char>,
    pos: int,
    lhs: GNode,
    min_power: u8,
    ctx: ParseContext,
    fuel: nat,
)
    requires
        fuel >= 1,
    ensures
        spec_parse_loop(s, pos, lhs, min_power, ctx, fuel) == (
        match spec_scan(s, pos) {
            ScanStep::End => ParseStep::Done { result: Ok(lhs), next: pos },
            ScanStep::Bad { c, at } => ParseStep::Done {
                result: Err(
                    ParsingError::Tokenization(
                        TokenizationError::UnknownToken(
                            UnknownTokenError { unknown_char: c, index: at as usize },
                        ),
                    ),
                ),
                next: pos,
            },
            ScanStep::Tok { token, next } => match token {
                GhostToken::Number(_) => ParseStep::Done {
                    result: Err(
                        ParsingError::Tokenization(
                            TokenizationError::UnexpectedToken(
                                UnexpectedTokenError {
                                    found: Some(TokenType::Number),
                                    expected: TokenFlags(spec_flag_bit(TokenType::Operator)),
                                },
                            ),
                        ),
                    ),
                    next: pos,
                },
                GhostToken::CloseDelimiter => if ctx.expecting_close_paren {
                    ParseStep::Done { result: Ok(lhs), next: pos }
                } else {
                    ParseStep::Done {
                        result: Err(
                            ParsingError::UnmatchedCloseDelimiter(UnmatchedCloseDelimiterError),
                        ),
                        next: pos,
                    }
                },
                GhostToken::ComparisonOperator(op) => if ctx.expecting_comparison {
                    ParseStep::Done { result: Ok(lhs), next: pos }
                } else {
                    ParseStep::Done {
                        result: Err(
                            ParsingError::UnmatchedComparison(UnmatchedComparisonError(op)),
                        ),
                        next: pos,
                    }
                },
                GhostToken::OpenDelimiter => match spec_parse(
                    s,
                    next,
                    0,
                    ParseContext { expecting_close_paren: true, ..ctx },
                    (fuel - 1) as nat,
                ) {
                    ParseStep::Spin => ParseStep::Spin,
                    ParseStep::Done { result: Err(e), next: _ } => ParseStep::Done {
                        result: Err(e),
                        next: pos,
                    },
                    ParseStep::Done { result: Ok(contents), next: p2 } => match spec_scan(s, p2) {
                        ScanStep::End => ParseStep::Done {
                            result: Err(
                                ParsingError::Tokenization(
                                    TokenizationError::UnexpectedToken(
                                        UnexpectedTokenError {
                                            found: None,
                                            expected: spec_close_flags(),
                                        },
                                    ),
                                ),
                            ),
                            next: pos,
                        },
                        ScanStep::Bad { c, at } => ParseStep::Done {
                            result: Err(
                                ParsingError::Tokenization(
                                    TokenizationError::UnknownToken(
                                        UnknownTokenError { unknown_char: c, index: at as usize },
                                    ),
                                ),
                            ),
                            next: pos,
                        },
                        ScanStep::Tok { token: t2, next: p3 } => if spec_token_type(t2)
                            == TokenType::CloseDelimiter {
                            match spec_parse_loop(
                                s,
                                p3,
                                contents,
                                0,
                                ParseContext { expecting_close_paren: true, ..ctx },
                                (fuel - 1) as nat,
                            ) {
                                ParseStep::Spin => ParseStep::Spin,
                                ParseStep::Done { result: Err(e), next: _ } => ParseStep::Done {
                                    result: Err(e),
                                    next: pos,
                                },
                                ParseStep::Done { result: Ok(rhs), next: p4 } => ParseStep::Done {
                                    result: Ok(
                                        GNode::Binary {
                                            operator: spec_binary_operator(OpToken::Multiply),
                                            left: Box::new(lhs),
                                            right: Box::new(rhs),
                                        },
                                    ),
                                    next: p4,
                                },
                            }
                        } else {
                            ParseStep::Done {
                                result: Err(
                                    ParsingError::Tokenization(
                                        TokenizationError::UnexpectedToken(
                                            UnexpectedTokenError {
                                                found: Some(spec_token_type(t2)),
                                                expected: spec_close_flags(),
                                            },
                                        ),
                                    ),
                                ),
                                next: pos,
                            }
                        },
                    },
                },
                GhostToken::Operator(op_token) => {
                    let op = spec_binary_operator(op_token);
                    if op.binding_power.left < min_power {
                        ParseStep::Done { result: Ok(lhs), next: pos }
                    } else if op_token == OpToken::Dice {
                        match spec_parse(
                            s,
                            next,
                            op.binding_power.right,
                            ParseContext { expecting_comparison: true, ..ctx },
                            (fuel - 1) as nat,
                        ) {
                            ParseStep::Spin => ParseStep::Spin,
                            ParseStep::Done { result: Err(e), next: _ } => ParseStep::Done {
                                result: Err(e),
                                next: pos,
                            },
                            ParseStep::Done { result: Ok(rhs), next: p2 } => match spec_scan(
                                s,
                                p2,
                            ) {
                                ScanStep::Tok {
                                    token: GhostToken::ComparisonOperator(comp_op),
                                    next: p3,
                                } => match spec_parse(s, p3, 0, ctx, (fuel - 1) as nat) {
                                    ParseStep::Spin => ParseStep::Spin,
                                    ParseStep::Done { result: Err(e), next: _ } => ParseStep::Done {
                                        result: Err(e),
                                        next: pos,
                                    },
                                    ParseStep::Done {
                                        result: Ok(compare_to),
                                        next: p4,
                                    } => spec_parse_loop(
                                        s,
                                        p4,
                                        GNode::ComparisonTernary {
                                            comp_op,
                                            dice_left: Box::new(lhs),
                                            dice_right: Box::new(rhs),
                                            compare_to: Box::new(compare_to),
                                        },
                                        min_power,
                                        ctx,
                                        (fuel - 1) as nat,
                                    ),
                                },
                                _ => spec_parse_loop(
                                    s,
                                    p2,
                                    GNode::Binary {
                                        operator: op,
                                        left: Box::new(lhs),
                                        right: Box::new(rhs),
                                    },
                                    min_power,
                                    ctx,
                                    (fuel - 1) as nat,
                                ),
                            },
                        }
                    } else {
                        match spec_parse(s, next, op.binding_power.right, ctx, (fuel - 1) as nat) {
                            ParseStep::Spin => ParseStep::Spin,
                            ParseStep::Done { result: Err(e), next: _ } => ParseStep::Done {
                                result: Err(e),
                                next: pos,
                            },
                            ParseStep::Done { result: Ok(rhs), next: p2 } => spec_parse_loop(
                                s,
                                p2,
                                GNode::Binary {
                                    operator: op,
                                    left: Box::new(lhs),
                                    right: Box::new(rhs),
                                },
                                min_power,
                                ctx,
                                (fuel - 1) as nat,
                            ),
                        }
                    }
                },
            },
        }
    ),
{
}

/// What the executable parser owes its ghost mirror: the mirror reaches a
/// verdict within one step more than the stream has fuel, an `Ok` verdict is
/// returned as the same tree with the stream left at the verdict's position,
/// and an `Err` verdict is returned as exactly that error.
pub open spec fn parse_matches_spec(
    outcome: ParseStep,
    r: Result<Node, ParsingError>,
    end_pos: int,
) -> bool {
    &&& outcome is Done
    &&& match outcome {
        ParseStep::Done { result, next } => match result {
            Ok(g) => r matches Ok(n) && node_view(n) == g && end_pos == next,
            Err(e) => r == Result::<Node, ParsingError>::Err(e),
        },
        ParseStep::Spin => false,
    }
}

/// Parses a whole expression from the stream, starting at the loosest
/// binding power.
pub fn parse_tree_from(stream: &mut TokenStream) -> (r: Result<Node, ParsingError>)
    requires
        old(stream).wf(),
    ensures
        final(stream).wf(),
        final(stream).spec_text() == old(stream).spec_text(),
        final(stream).fuel() <= old(stream).fuel(),
        r matches Ok(n) ==> node_wf(n) && final(stream).fuel() < old(stream).fuel(),
        parse_matches_spec(
            spec_parse(
                old(stream).spec_text(),
                old(stream).spec_pos(),
                0,
                ParseContext { expecting_comparison: false, expecting_close_paren: false },
                (old(stream).fuel() + 1) as nat,
            ),
            r,
            final(stream).spec_pos(),
        ),
{
    parse_min_power(
        stream,
        0,
        ParseContext { expecting_comparison: false, expecting_close_paren: false },
    )
}

/// Parses one subexpression: a leading operand (number, prefix operator, or
/// parenthesized expression), then every following operator that binds at
/// least as tightly as `min_power`.
#[verifier::rlimit(100)]
fn parse_min_power(stream: &mut TokenStream, min_power: u8, context: ParseContext) -> (r: Result<
    Node,
    ParsingError,
>)
    requires
        old(stream).wf(),
    ensures
        final(stream).wf(),
        final(stream).spec_text() == old(stream).spec_text(),
        final(stream).fuel() <= old(stream).fuel(),
        r matches Ok(n) ==> node_wf(n) && final(stream).fuel() < old(stream).fuel(),
        parse_matches_spec(
            spec_parse(
                old(stream).spec_text(),
                old(stream).spec_pos(),
                min_power,
                context,
                (old(stream).fuel() + 1) as nat,
            ),
            r,
            final(stream).spec_pos(),
        ),
    decreases old(stream).fuel(), 1int,
{
    let ghost s = old(stream).spec_text();
    let ghost p0 = old(stream).spec_pos();
    let ghost f0 = (old(stream).fuel() + 1) as nat;
    proof {
        lemma_start_flags();
    }
    let start = stream.expect(
        TokenType::Number | TokenType::Operator | TokenType::OpenDelimiter,
    );
    proof {
        lemma_min_power_unfold(s, p0, min_power, context, f0);
    }
    let lhs = match start {
        Err(e) => {
            return Err(ParsingError::Tokenization(e));
        },
        Ok(Token::Number(n)) => Node::Leaf(n),
        Ok(Token::Operator(op_token)) => {
            let operator = match UnaryOperator::try_from_token(op_token) {
                Ok(operator) => operator,
                Err(e) => {
                    return Err(ParsingError::InvalidOperator(e));
                },
            };
            if operator.direction != UnaryDirection::Prefix {
                return Err(
                    ParsingError::UnaryWrongDirection(
                        UnaryWrongDirectionError {
                            operator,
                            expected_direction: UnaryDirection::Prefix,
                        },
                    ),
                );
            }
            let ghost f1 = (stream.fuel() + 1) as nat;
            let ghost p1 = stream.spec_pos();
            let argument = match parse_min_power(stream, operator.binding_power, context) {
                Ok(argument) => argument,
                Err(e) => {
                    proof {
                        lemma_parse_mono(s, p1, operator.binding_power, context, f1, (f0 - 1) as nat);
                    }
                    return Err(e);
                },
            };
            proof {
                lemma_parse_mono(s, p1, operator.binding_power, context, f1, (f0 - 1) as nat);
            }
            Node::Unary { operator, argument: Box::new(argument) }
        },
        Ok(Token::OpenDelimiter) => {
            let ghost f1 = (stream.fuel() + 1) as nat;
            let ghost p1 = stream.spec_pos();
            let value = match parse_min_power(stream, 0, context.expect_close_paren()) {
                Ok(value) => value,
                Err(e) => {
                    proof {
                        lemma_parse_mono(
                            s,
                            p1,
                            0,
                            ParseContext { expecting_close_paren: true, ..context },
                            f1,
                            (f0 - 1) as nat,
                        );
                    }
                    return Err(e);
                },
            };
            proof {
                lemma_parse_mono(
                    s,
                    p1,
                    0,
                    ParseContext { expecting_close_paren: true, ..context },
                    f1,
                    (f0 - 1) as nat,
                );
                lemma_close_flags();
            }
            match stream.consume_expecting(TokenFlags::from(TokenType::CloseDelimiter)) {
                Ok(_) => {},
                Err(e) => {
                    return Err(ParsingError::Tokenization(e));
                },
            }
            value
        },
        Ok(token) => {
            // `expect` admits no other category here; the arm stands for
            // exhaustiveness alone.
            return Err(
                ParsingError::Tokenization(
                    TokenizationError::UnexpectedToken(
                        UnexpectedTokenError {
                            found: Some(token.token_type()),
                            expected: TokenType::Number | TokenType::Operator
                                | TokenType::OpenDelimiter,
                        },
                    ),
                ),
            );
        },
    };
    let ghost f2 = (stream.fuel() + 1) as nat;
    let ghost p2 = stream.spec_pos();
    let r = parse_power_loop(stream, lhs, min_power, context);
    proof {
        lemma_parse_loop_mono(s, p2, node_view(lhs), min_power, context, f2, (f0 - 1) as nat);
    }
    r
}

/// The climbing loop: with `lhs` already parsed, folds in every following
/// operator that binds at least as tightly as `min_power`, together with the
/// juxtaposition and dice-comparison irregularities of the grammar.
#[verifier::rlimit(100)]
fn parse_power_loop(stream: &mut TokenStream, lhs: Node, min_power: u8, context: ParseContext) -> (r:
    Result<Node, ParsingError>)
    requires
        old(stream).wf(),
        node_wf(lhs),
    ensures
        final(stream).wf(),
        final(stream).spec_text() == old(stream).spec_text(),
        final(stream).fuel() <= old(stream).fuel(),
        r matches Ok(n) ==> node_wf(n),
        parse_matches_spec(
            spec_parse_loop(
                old(stream).spec_text(),
                old(stream).spec_pos(),
                node_view(lhs),
                min_power,
                context,
                (old(stream).fuel() + 1) as nat,
            ),
            r,
            final(stream).spec_pos(),
        ),
    decreases old(stream).fuel(), 0int,
{
    let ghost s = old(stream).spec_text();
    let ghost p0 = old(stream).spec_pos();
    let ghost f0 = (old(stream).fuel() + 1) as nat;
    let ghost g0 = node_view(lhs);
    proof {
        lemma_power_loop_unfold(s, p0, g0, min_power, context, f0);
    }
    let peeked = stream.peek();
    match peeked {
        None => Ok(lhs),
        Some(Err(e)) => Err(ParsingError::Tokenization(e)),
        Some(Ok(Token::Number(_))) => Err(
            ParsingError::Tokenization(
                TokenizationError::UnexpectedToken(
                    UnexpectedTokenError {
                        found: Some(TokenType::Number),
                        expected: TokenFlags::from(TokenType::Operator),
                    },
                ),
            ),
        ),
        Some(Ok(Token::CloseDelimiter)) => {
            if context.expecting_close_paren {
                Ok(lhs)
            } else {
                Err(ParsingError::UnmatchedCloseDelimiter(UnmatchedCloseDelimiterError))
            }
        },
        Some(Ok(Token::ComparisonOperator(op))) => {
            if context.expecting_comparison {
                Ok(lhs)
            } else {
                Err(ParsingError::UnmatchedComparison(UnmatchedComparisonError(op)))
            }
        },
        Some(Ok(Token::OpenDelimiter)) => {
            // Juxtaposition: an operand directly against a parenthesized
            // expression multiplies the two, and the right side reopens at
            // the loosest binding power, so everything that follows joins
            // the right operand before the product closes.
            match stream.consume() {
                Ok(_) => {},
                Err(e) => {
                    return Err(ParsingError::Tokenization(e));
                },
            }
            let inner_context = context.expect_close_paren();
            let ghost f1 = (stream.fuel() + 1) as nat;
            let ghost p1 = stream.spec_pos();
            let contents = match parse_min_power(stream, 0, inner_context) {
                Ok(contents) => contents,
                Err(e) => {
                    proof {
                        lemma_parse_mono(
                            s,
                            p1,
                            0,
                            ParseContext { expecting_close_paren: true, ..context },
                            f1,
                            (f0 - 1) as nat,
                        );
                    }
                    return Err(e);
                },
            };
            proof {
                lemma_parse_mono(
                    s,
                    p1,
                    0,
                    ParseContext { expecting_close_paren: true, ..context },
                    f1,
                    (f0 - 1) as nat,
                );
                lemma_close_flags();
            }
            match stream.consume_expecting(TokenFlags::from(TokenType::CloseDelimiter)) {
                Ok(_) => {},
                Err(e) => {
                    return Err(ParsingError::Tokenization(e));
                },
            }
            let ghost f2 = (stream.fuel() + 1) as nat;
            let ghost p3 = stream.spec_pos();
            let rhs = match parse_power_loop(stream, contents, 0, inner_context) {
                Ok(rhs) => rhs,
                Err(e) => {
                    proof {
                        lemma_parse_loop_mono(
                            s,
                            p3,
                            node_view(contents),
                            0,
                            ParseContext { expecting_close_paren: true, ..context },
                            f2,
                            (f0 - 1) as nat,
                        );
                    }
                    return Err(e);
                },
            };
            proof {
                lemma_parse_loop_mono(
                    s,
                    p3,
                    node_view(contents),
                    0,
                    ParseContext { expecting_close_paren: true, ..context },
                    f2,
                    (f0 - 1) as nat,
                );
            }
            Ok(
                Node::Binary {
                    operator: BinaryOperator::from(OpToken::Multiply),
                    left: Box::new(lhs),
                    right: Box::new(rhs),
                },
            )
        },
        Some(Ok(Token::Operator(op_token))) => {
            let op = BinaryOperator::from(op_token);
            if op.binding_power.left < min_power {
                return Ok(lhs);
            }
            match stream.consume() {
                Ok(_) => {},
                Err(e) => {
                    return Err(ParsingError::Tokenization(e));
                },
            }
            if op_token == OpToken::Dice {
                let comp_context = context.expect_comparison();
                let ghost f1 = (stream.fuel() + 1) as nat;
                let ghost p1 = stream.spec_pos();
                let rhs = match parse_min_power(stream, op.binding_power.right, comp_context) {
                    Ok(rhs) => rhs,
                    Err(e) => {
                        proof {
                            lemma_parse_mono(
                                s,
                                p1,
                                op.binding_power.right,
                                ParseContext { expecting_comparison: true, ..context },
                                f1,
                                (f0 - 1) as nat,
                            );
                        }
                        return Err(e);
                    },
                };
                proof {
                    lemma_parse_mono(
                        s,
                        p1,
                        op.binding_power.right,
                        ParseContext { expecting_comparison: true, ..context },
                        f1,
                        (f0 - 1) as nat,
                    );
                }
                let followed = stream.peek();
                let with_comparison = match followed {
                    Some(Ok(Token::ComparisonOperator(comp_op))) => {
                        proof {
                            lemma_comparison_flags();
                            assert(spec_has_set(
                                spec_comparison_flags(),
                                TokenType::ComparisonOperator,
                            ));
                        }
                        match stream.consume_expecting(
                            TokenFlags::from(TokenType::ComparisonOperator),
                        ) {
                            Ok(_) => {},
                            Err(e) => {
                                return Err(ParsingError::Tokenization(e));
                            },
                        }
                        let ghost f2 = (stream.fuel() + 1) as nat;
                        let ghost p3 = stream.spec_pos();
                        let compare_to = match parse_min_power(stream, 0, context) {
                            Ok(compare_to) => compare_to,
                            Err(e) => {
                                proof {
                                    lemma_parse_mono(s, p3, 0, context, f2, (f0 - 1) as nat);
                                }
                                return Err(e);
                            },
                        };
                        proof {
                            lemma_parse_mono(s, p3, 0, context, f2, (f0 - 1) as nat);
                        }
                        Node::ComparisonTernary {
                            comp_op,
                            dice_left: Box::new(lhs),
                            dice_right: Box::new(rhs),
                            compare_to: Box::new(compare_to),
                        }
                    },
                    _ => Node::Binary { operator: op, left: Box::new(lhs), right: Box::new(rhs) },
                };
                let ghost f3 = (stream.fuel() + 1) as nat;
                let ghost p4 = stream.spec_pos();
                let r = parse_power_loop(stream, with_comparison, min_power, context);
                proof {
                    lemma_parse_loop_mono(
                        s,
                        p4,
                        node_view(with_comparison),
                        min_power,
                        context,
                        f3,
                        (f0 - 1) as nat,
                    );
                }
                r
            } else {
                let ghost f1 = (stream.fuel() + 1) as nat;
                let ghost p1 = stream.spec_pos();
                let rhs = match parse_min_power(stream, op.binding_power.right, context) {
                    Ok(rhs) => rhs,
                    Err(e) => {
                        proof {
                            lemma_parse_mono(
                                s,
                                p1,
                                op.binding_power.right,
                                context,
                                f1,
                                (f0 - 1) as nat,
                            );
                        }
                        return Err(e);
                    },
                };
                proof {
                    lemma_parse_mono(s, p1, op.binding_power.right, context, f1, (f0 - 1) as nat);
                }
                let folded = Node::Binary { operator: op, left: Box::new(lhs), right: Box::new(rhs) };
                let ghost f3 = (stream.fuel() + 1) as nat;
                let ghost p2 = stream.spec_pos();
                let r = parse_power_loop(stream, folded, min_power, context);
                proof {
                    lemma_parse_loop_mono(
                        s,
                        p2,
                        node_view(folded),
                        min_power,
                        context,
                        f3,
                        (f0 - 1) as nat,
                    );
                }
                r
            }
        },
    }
}

/// The two context flags the parser threads through its recursion: whether a
/// closing parenthesis is awaited somewhere above, and whether a comparison
/// operator may close the current dice expression.
#[derive(Debug, Default, Copy, Clone)]
pub struct ParseContext {
    pub expecting_comparison: bool,
    pub expecting_close_paren: bool,
}

impl ParseContext {
    /// The same context, now awaiting a closing parenthesis.
    pub fn expect_close_paren(self) -> (r: ParseContext)
        ensures
            r == (ParseContext { expecting_close_paren: true, ..self }),
    {
        ParseContext { expecting_close_paren: true, ..self }
    }

    /// The same context, now allowing a trailing comparison.
    pub fn expect_comparison(self) -> (r: ParseContext)
        ensures
            r == (ParseContext { expecting_comparison: true, ..self }),
    {
        ParseContext { expecting_comparison: true, ..self }
    }
}

} // verus!
