//! What can go wrong at each stage.
use crate::ast::{BinaryOp, UnaryOp};
use crate::token::{Token, TokenModel, TokenType};
use crate::types::ValueKind;
use std::num::ParseFloatError;
use vstd::prelude::*;

verus! {

/// The reason a numeral could not be read, from `str::parse::<f64>`.
#[verifier::external_type_specification]
#[verifier::external_body]
pub struct ExParseFloatError(ParseFloatError);

/// Why source text could not be scanned.
#[derive(Debug, PartialEq, Eq)]
pub enum LexingError {
    /// A character that starts no token.
    InvalidToken(char),
    /// A string literal, opened on the given line, that the input ends inside.
    UnexpectedEndStringLiteral { line_num: usize },
    /// A numeral on the given line that does not read as a number, and why.
    InvalidDigit { line_num: usize, err: ParseFloatError },
}

/// Why a token sequence could not be parsed.
#[derive(Debug, PartialEq)]
pub enum ParsingError {
    /// A token that no rule of the grammar accepts where it stands.
    UnexpectedToken(Token),
    /// A token that the grammar requires is missing.
    ExpectedToken(TokenType),
    /// The tokens ran out where an operand was required.
    UnexpectedEnd,
}

/// The mathematical content of a [`ParsingError`].
pub enum ParsingErrorModel {
    UnexpectedToken(TokenModel),
    ExpectedToken(TokenType),
    UnexpectedEnd,
}

impl View for ParsingError {
    type V = ParsingErrorModel;

    open spec fn view(&self) -> ParsingErrorModel {
        match self {
            ParsingError::UnexpectedToken(t) => ParsingErrorModel::UnexpectedToken(t@),
            ParsingError::ExpectedToken(k) => ParsingErrorModel::ExpectedToken(*k),
            ParsingError::UnexpectedEnd => ParsingErrorModel::UnexpectedEnd,
        }
    }
}

/// The operator named in a runtime type error.
#[derive(Clone, Copy, Debug, PartialEq, Eq, Structural)]
pub enum Operator {
    Unary(UnaryOp),
    Binary(BinaryOp),
}

/// Why an expression tree could not be evaluated.
#[derive(Clone, Copy, Debug, PartialEq, Eq, Structural)]
pub enum RuntimeError {
    /// An operator applied to operands of kinds it does not take; `other` is
    /// the kind of the right operand of a binary operator.
    TypeMismatch { operator: Operator, operand: ValueKind, other: Option<ValueKind> },
    /// An equality test that involves an identifier value and a value of another kind.
    UnsupportedComparison { kind: ValueKind },
}

/// A failure of any stage of the pipeline.
#[derive(Debug, PartialEq)]
pub enum LoxError {
    InnerLexingError(LexingError),
    InnerParsingError(ParsingError),
    InnerRuntimeError(RuntimeError),
}

impl From<LexingError> for LoxError {
    fn from(e: LexingError) -> (r: Self) {
        LoxError::InnerLexingError(e)
    }
}

impl vstd::std_specs::convert::FromSpecImpl<LexingError> for LoxError {
    open spec fn obeys_from_spec() -> bool {
        true
    }

    open spec fn from_spec(e: LexingError) -> Self {
        LoxError::InnerLexingError(e)
    }
}

impl From<ParsingError> for LoxError {
    fn from(e: ParsingError) -> (r: Self) {
        LoxError::InnerParsingError(e)
    }
}

impl vstd::std_specs::convert::FromSpecImpl<ParsingError> for LoxError {
    open spec fn obeys_from_spec() -> bool {
        true
    }

    open spec fn from_spec(e: ParsingError) -> Self {
        LoxError::InnerParsingError(e)
    }
}

impl From<RuntimeError> for LoxError {
    fn from(e: RuntimeError) -> (r: Self) {
        LoxError::InnerRuntimeError(e)
    }
}

impl vstd::std_specs::convert::FromSpecImpl<RuntimeError> for LoxError {
    open spec fn obeys_from_spec() -> bool {
        true
    }

    open spec fn from_spec(e: RuntimeError) -> Self {
        LoxError::InnerRuntimeError(e)
    }
}

/// The mathematical content of a [`LoxError`].
pub enum LoxErrorModel {
    InnerLexingError(LexingError),
    InnerParsingError(ParsingErrorModel),
    InnerRuntimeError(RuntimeError),
}

impl View for LoxError {
    type V = LoxErrorModel;

    open spec fn view(&self) -> LoxErrorModel {
        match self {
            LoxError::InnerLexingError(e) => LoxErrorModel::InnerLexingError(*e),
            LoxError::InnerParsingError(e) => LoxErrorModel::InnerParsingError(e@),
            LoxError::InnerRuntimeError(e) => LoxErrorModel::InnerRuntimeError(*e),
        }
    }
}

} // verus!
