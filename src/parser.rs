//! The recursive-descent parser: tokens to an expression tree.
use crate::ast::{BinaryOp, Expr, ExprModel, UnaryOp};
use crate::error::{ParsingError, ParsingErrorModel};
use crate::token::{tokens_view, Token, TokenModel, TokenType};
use crate::types::{LoxType, ValueModel};
use vstd::prelude::*;

verus! {

/// Levels of the precedence ladder, from the loosest binding to the tightest.
pub const EQUALITY: u8 = 5;
pub const COMPARISON: u8 = 4;
pub const ADDITION: u8 = 3;
pub const MULTIPLICATION: u8 = 2;
pub const UNARY: u8 = 1;
pub const PRIMARY: u8 = 0;

/// The binary operator that a token of kind `k` denotes at `level`, if any.
pub open spec fn level_op(level: nat, k: TokenType) -> Option<BinaryOp> {
    if level == EQUALITY && k == TokenType::EqualEqual {
        Some(BinaryOp::EqualEqual)
    } else if level == EQUALITY && k == TokenType::BangEqual {
        Some(BinaryOp::BangEqual)
    } else if level == COMPARISON && k == TokenType::Greater {
        Some(BinaryOp::Greater)
    } else if level == COMPARISON && k == TokenType::GreaterEqual {
        Some(BinaryOp::GreaterEqual)
    } else if level == COMPARISON && k == TokenType::Less {
        Some(BinaryOp::Less)
    } else if level == COMPARISON && k == TokenType::LessEqual {
        Some(BinaryOp::LessEqual)
    } else if level == ADDITION && k == TokenType::Plus {
        Some(BinaryOp::Plus)
    } else if level == ADDITION && k == TokenType::Minus {
        Some(BinaryOp::Minus)
    } else if level == MULTIPLICATION && k == TokenType::Slash {
        Some(BinaryOp::Slash)
    } else if level == MULTIPLICATION && k == TokenType::Star {
        Some(BinaryOp::Star)
    } else {
        None
    }
}

/// The prefix operator that a token of kind `k` denotes, if any.
pub open spec fn prefix_op(k: TokenType) -> Option<UnaryOp> {
    if k == TokenType::Bang {
        Some(UnaryOp::Bang)
    } else if k == TokenType::Minus {
        Some(UnaryOp::Minus)
    } else {
        None
    }
}

/// The literal expression that the single token `t` stands for, if any.
/// Identifiers and strings both stand for a string of their text.
pub open spec fn token_literal(t: TokenModel) -> Option<ExprModel> {
    match t.token_type {
        TokenType::Identifier | TokenType::String_ => match t.literal {
            Some(ValueModel::String_(x)) => Some(ExprModel::Literal(ValueModel::String_(x))),
            Some(ValueModel::Identifier(x)) => Some(ExprModel::Literal(ValueModel::String_(x))),
            _ => None,
        },
        TokenType::Number => match t.literal {
            Some(ValueModel::Number(b)) => Some(ExprModel::Literal(ValueModel::Number(b))),
            _ => None,
        },
        TokenType::False => Some(ExprModel::Literal(ValueModel::Boolean(false))),
        TokenType::True => Some(ExprModel::Literal(ValueModel::Boolean(true))),
        TokenType::Nil => Some(ExprModel::Literal(ValueModel::Nil)),
        _ => None,
    }
}

/// The expression of precedence `level` that starts at position `p` of `ts`,
/// with the position after it.
///
/// A binary level parses an operand one level tighter; if an operator of its
/// own follows, it parses the right operand as a whole equality expression.
pub open spec fn parse_at(ts: Seq<TokenModel>, p: int, level: nat) -> Result<
    (ExprModel, int),
    ParsingErrorModel,
>
    decreases ts.len() - p, level,
{
    if p < 0 || p > ts.len() || level > EQUALITY {
        Err(ParsingErrorModel::UnexpectedEnd)
    } else if level == PRIMARY {
        if p == ts.len() {
            Err(ParsingErrorModel::UnexpectedEnd)
        } else if ts[p].token_type == TokenType::LeftParen {
            match parse_at(ts, p + 1, EQUALITY as nat) {
                Err(e) => Err(e),
                Ok((inner, q)) => if !(p + 1 <= q <= ts.len()) {
                    Err(ParsingErrorModel::UnexpectedEnd)
                } else if q == ts.len() {
                    Err(ParsingErrorModel::ExpectedToken(TokenType::RightParen))
                } else if ts[q].token_type == TokenType::RightParen {
                    Ok((inner, q + 1))
                } else {
                    Err(ParsingErrorModel::UnexpectedToken(ts[q]))
                },
            }
        } else {
            match token_literal(ts[p]) {
                Some(e) => Ok((e, p + 1)),
                None => Err(ParsingErrorModel::UnexpectedToken(ts[p])),
            }
        }
    } else if level == UNARY {
        if p < ts.len() && prefix_op(ts[p].token_type) is Some {
            match parse_at(ts, p + 1, UNARY as nat) {
                Err(e) => Err(e),
                Ok((operand, q)) => Ok(
                    (ExprModel::Unary(prefix_op(ts[p].token_type)->0, Box::new(operand)), q),
                ),
            }
        } else {
            parse_at(ts, p, PRIMARY as nat)
        }
    } else {
        match parse_at(ts, p, (level - 1) as nat) {
            Err(e) => Err(e),
            Ok((left, q)) => if p <= q < ts.len() && level_op(level, ts[q].token_type) is Some {
                match parse_at(ts, q + 1, EQUALITY as nat) {
                    Err(e) => Err(e),
                    Ok((right, q2)) => Ok(
                        (
                            ExprModel::Binary(
                                Box::new(left),
                                level_op(level, ts[q].token_type)->0,
                                Box::new(right),
                            ),
                            q2,
                        ),
                    ),
                }
            } else {
                Ok((left, q))
            },
        }
    }
}

/// The expression that a token sequence holds; tokens after it are ignored.
pub open spec fn parse(ts: Seq<TokenModel>) -> Result<ExprModel, ParsingErrorModel> {
    match parse_at(ts, 0, EQUALITY as nat) {
        Ok((e, _)) => Ok(e),
        Err(e) => Err(e),
    }
}

/// A number token whose value is `x`.
pub open spec fn is_number_token(t: TokenModel, x: u64) -> bool {
    t.token_type == TokenType::Number && t.literal == Some(ValueModel::Number(x))
}

/// `*` binds tighter than `+`: the tokens of `a + b * c`, for numbers `a`,
/// `b` and `c`, parse as `a + (b * c)`.
pub proof fn lemma_multiplication_binds_tighter(ts: Seq<TokenModel>, a: u64, b: u64, c: u64)
    requires
        ts.len() == 5,
        is_number_token(ts[0], a),
        ts[1].token_type == TokenType::Plus,
        is_number_token(ts[2], b),
        ts[3].token_type == TokenType::Star,
        is_number_token(ts[4], c),
    ensures
        parse(ts) == Ok::<ExprModel, ParsingErrorModel>(
            ExprModel::Binary(
                Box::new(ExprModel::Literal(ValueModel::Number(a))),
                BinaryOp::Plus,
                Box::new(
                    ExprModel::Binary(
                        Box::new(ExprModel::Literal(ValueModel::Number(b))),
                        BinaryOp::Star,
                        Box::new(ExprModel::Literal(ValueModel::Number(c))),
                    ),
                ),
            ),
        ),
{
    let la = ExprModel::Literal(ValueModel::Number(a));
    let lb = ExprModel::Literal(ValueModel::Number(b));
    let lc = ExprModel::Literal(ValueModel::Number(c));
    let product = ExprModel::Binary(Box::new(lb), BinaryOp::Star, Box::new(lc));
    let sum = ExprModel::Binary(Box::new(la), BinaryOp::Plus, Box::new(product));
    // The last operand, `c`, at every level.
    assert(parse_at(ts, 4, 0) == Ok::<(ExprModel, int), ParsingErrorModel>((lc, 5)));
    assert(parse_at(ts, 4, 1) == Ok::<(ExprModel, int), ParsingErrorModel>((lc, 5)));
    assert(parse_at(ts, 4, 2) == Ok::<(ExprModel, int), ParsingErrorModel>((lc, 5)));
    assert(parse_at(ts, 4, 3) == Ok::<(ExprModel, int), ParsingErrorModel>((lc, 5)));
    assert(parse_at(ts, 4, 4) == Ok::<(ExprModel, int), ParsingErrorModel>((lc, 5)));
    assert(parse_at(ts, 4, 5) == Ok::<(ExprModel, int), ParsingErrorModel>((lc, 5)));
    // `b * c`.
    assert(parse_at(ts, 2, 0) == Ok::<(ExprModel, int), ParsingErrorModel>((lb, 3)));
    assert(parse_at(ts, 2, 1) == Ok::<(ExprModel, int), ParsingErrorModel>((lb, 3)));
    assert(parse_at(ts, 2, 2) == Ok::<(ExprModel, int), ParsingErrorModel>((product, 5)));
    assert(parse_at(ts, 2, 3) == Ok::<(ExprModel, int), ParsingErrorModel>((product, 5)));
    assert(parse_at(ts, 2, 4) == Ok::<(ExprModel, int), ParsingErrorModel>((product, 5)));
    assert(parse_at(ts, 2, 5) == Ok::<(ExprModel, int), ParsingErrorModel>((product, 5)));
    // `a + (b * c)`.
    assert(parse_at(ts, 0, 0) == Ok::<(ExprModel, int), ParsingErrorModel>((la, 1)));
    assert(parse_at(ts, 0, 1) == Ok::<(ExprModel, int), ParsingErrorModel>((la, 1)));
    assert(parse_at(ts, 0, 2) == Ok::<(ExprModel, int), ParsingErrorModel>((la, 1)));
    assert(parse_at(ts, 0, 3) == Ok::<(ExprModel, int), ParsingErrorModel>((sum, 5)));
    assert(parse_at(ts, 0, 4) == Ok::<(ExprModel, int), ParsingErrorModel>((sum, 5)));
    assert(parse_at(ts, 0, 5) == Ok::<(ExprModel, int), ParsingErrorModel>((sum, 5)));
}

pub open spec fn step_view(r: Result<(Expr, usize), ParsingError>) -> Result<(ExprModel, int), ParsingErrorModel> {
    match r {
        Ok((e, q)) => Ok((e@, q as int)),
        Err(e) => Err(e@),
    }
}

pub open spec fn ends_within(r: Result<(Expr, usize), ParsingError>, p: int, len: int) -> bool {
    match r {
        Ok((_, q)) => p <= q <= len,
        Err(_) => true,
    }
}

fn level_op_of(level: u8, k: TokenType) -> (r: Option<BinaryOp>)
    ensures
        r == level_op(level as nat, k),
{
    match (level, k) {
        (EQUALITY, TokenType::EqualEqual) => Some(BinaryOp::EqualEqual),
        (EQUALITY, TokenType::BangEqual) => Some(BinaryOp::BangEqual),
        (COMPARISON, TokenType::Greater) => Some(BinaryOp::Greater),
        (COMPARISON, TokenType::GreaterEqual) => Some(BinaryOp::GreaterEqual),
        (COMPARISON, TokenType::Less) => Some(BinaryOp::Less),
        (COMPARISON, TokenType::LessEqual) => Some(BinaryOp::LessEqual),
        (ADDITION, TokenType::Plus) => Some(BinaryOp::Plus),
        (ADDITION, TokenType::Minus) => Some(BinaryOp::Minus),
        (MULTIPLICATION, TokenType::Slash) => Some(BinaryOp::Slash),
        (MULTIPLICATION, TokenType::Star) => Some(BinaryOp::Star),
        _ => None,
    }
}

/// An expression: the loosest level of the ladder.
fn expression(tokens: &[Token], p: usize) -> (r: Result<(Expr, usize), ParsingError>)
    requires
        p <= tokens@.len(),
    ensures
        step_view(r) == parse_at(tokens_view(tokens@), p as int, EQUALITY as nat),
        ends_within(r, p as int, tokens@.len() as int),
    decreases tokens@.len() - p, EQUALITY as nat, 1nat,
{
    binary_rule(tokens, p, EQUALITY)
}

/// One binary level of the ladder (equality, comparison, addition or
/// multiplication).
fn binary_rule(tokens: &[Token], p: usize, level: u8) -> (r: Result<(Expr, usize), ParsingError>)
    requires
        p <= tokens@.len(),
        MULTIPLICATION <= level <= EQUALITY,
    ensures
        step_view(r) == parse_at(tokens_view(tokens@), p as int, level as nat),
        ends_within(r, p as int, tokens@.len() as int),
    decreases tokens@.len() - p, level as nat, 0nat,
{
    let operand = if level == MULTIPLICATION {
        unary(tokens, p)
    } else {
        binary_rule(tokens, p, level - 1)
    };
    let (left, q) = match operand {
        Ok(found) => found,
        Err(e) => {
            return Err(e);
        },
    };
    if q < tokens.len() {
        if let Some(op) = level_op_of(level, tokens[q].token_type) {
            let (right, q2) = match expression(tokens, q + 1) {
                Ok(found) => found,
                Err(e) => {
                    return Err(e);
                },
            };
            return Ok((Expr::Binary(Box::new(left), op, Box::new(right)), q2));
        }
    }
    Ok((left, q))
}

/// A prefix operator applied to a unary expression, or a primary expression.
fn unary(tokens: &[Token], p: usize) -> (r: Result<(Expr, usize), ParsingError>)
    requires
        p <= tokens@.len(),
    ensures
        step_view(r) == parse_at(tokens_view(tokens@), p as int, UNARY as nat),
        ends_within(r, p as int, tokens@.len() as int),
    decreases tokens@.len() - p, UNARY as nat, 0nat,
{
    if p < tokens.len() {
        let op = match tokens[p].token_type {
            TokenType::Bang => Some(UnaryOp::Bang),
            TokenType::Minus => Some(UnaryOp::Minus),
            _ => None,
        };
        if let Some(op) = op {
            let (operand, q) = match unary(tokens, p + 1) {
                Ok(found) => found,
                Err(e) => {
                    return Err(e);
                },
            };
            return Ok((Expr::Unary(op, Box::new(operand)), q));
        }
    }
    primary(tokens, p)
}

/// A literal, or a parenthesised expression.
fn primary(tokens: &[Token], p: usize) -> (r: Result<(Expr, usize), ParsingError>)
    requires
        p <= tokens@.len(),
    ensures
        step_view(r) == parse_at(tokens_view(tokens@), p as int, PRIMARY as nat),
        ends_within(r, p as int, tokens@.len() as int),
    decreases tokens@.len() - p, PRIMARY as nat, 0nat,
{
    if p >= tokens.len() {
        return Err(ParsingError::UnexpectedEnd);
    }
    let token = &tokens[p];
    let unexpected = ParsingError::UnexpectedToken(token.clone());
    let value = match token.token_type {
        TokenType::Identifier | TokenType::String_ => match &token.literal {
            Some(LoxType::String_(x)) => LoxType::String_(x.clone()),
            Some(LoxType::Identifier(x)) => LoxType::String_(x.clone()),
            _ => {
                return Err(unexpected);
            },
        },
        TokenType::Number => match &token.literal {
            Some(LoxType::Number(b)) => LoxType::Number(*b),
            _ => {
                return Err(unexpected);
            },
        },
        TokenType::False => LoxType::Boolean(false),
        TokenType::True => LoxType::Boolean(true),
        TokenType::Nil => LoxType::Nil,
        TokenType::LeftParen => {
            let (inner, q) = match expression(tokens, p + 1) {
                Ok(found) => found,
                Err(e) => {
                    return Err(e);
                },
            };
            if q >= tokens.len() {
                return Err(ParsingError::ExpectedToken(TokenType::RightParen));
            }
            if tokens[q].token_type == TokenType::RightParen {
                return Ok((inner, q + 1));
            }
            return Err(ParsingError::UnexpectedToken(tokens[q].clone()));
        },
        _ => {
            return Err(unexpected);
        },
    };
    Ok((Expr::Literal(value), p + 1))
}

/// Builds expression trees from tokens.
#[derive(Default)]
pub struct Parser;

impl Parser {
    /// Parses the expression at the start of `tokens`; tokens after it are
    /// ignored. The result is exactly [`parse`] of the tokens.
    pub fn parse_tokens(&self, tokens: &[Token]) -> (r: Result<Expr, ParsingError>)
        ensures
            match r {
                Ok(e) => parse(tokens_view(tokens@)) == Ok::<ExprModel, ParsingErrorModel>(e@),
                Err(e) => parse(tokens_view(tokens@)) == Err::<ExprModel, ParsingErrorModel>(e@),
            },
    {
        match expression(tokens, 0) {
            Ok((e, _)) => Ok(e),
            Err(e) => Err(e),
        }
    }
}

} // verus!
