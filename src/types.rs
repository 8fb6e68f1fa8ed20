//! Runtime values.
use vstd::prelude::*;

verus! {

/// A runtime value.
///
/// A number is an IEEE-754 binary64 value, held as its bit pattern.
#[derive(Debug, PartialEq)]
pub enum LoxType {
    String_(String),
    Number(u64),
    Identifier(String),
    Boolean(bool),
    Nil,
}

/// The mathematical content of a [`LoxType`]: text as a sequence of characters.
pub enum ValueModel {
    String_(Seq<char>),
    Number(u64),
    Identifier(Seq<char>),
    Boolean(bool),
    Nil,
}

/// The kind of a value, as reported in runtime errors.
#[derive(Clone, Copy, Debug, PartialEq, Eq, Structural)]
pub enum ValueKind {
    String_,
    Number,
    Identifier,
    Boolean,
    Nil,
}

/// A binary arithmetic operation on two numbers.
#[derive(Clone, Copy, Debug, PartialEq, Eq, Structural)]
pub enum ArithOp {
    Add,
    Subtract,
    Multiply,
    Divide,
}

/// How two numbers compare; `Unordered` when either is NaN.
#[derive(Clone, Copy, Debug, PartialEq, Eq, Structural)]
pub enum NumOrder {
    Less,
    Equal,
    Greater,
    Unordered,
}

/// Bit of a binary64 pattern that holds the sign.
pub const SIGN_BIT: u64 = 0x8000_0000_0000_0000;

impl View for LoxType {
    type V = ValueModel;

    open spec fn view(&self) -> ValueModel {
        match self {
            LoxType::String_(s) => ValueModel::String_(s@),
            LoxType::Number(n) => ValueModel::Number(*n),
            LoxType::Identifier(s) => ValueModel::Identifier(s@),
            LoxType::Boolean(b) => ValueModel::Boolean(*b),
            LoxType::Nil => ValueModel::Nil,
        }
    }
}

impl ValueModel {
    pub open spec fn kind(self) -> ValueKind {
        match self {
            ValueModel::String_(_) => ValueKind::String_,
            ValueModel::Number(_) => ValueKind::Number,
            ValueModel::Identifier(_) => ValueKind::Identifier,
            ValueModel::Boolean(_) => ValueKind::Boolean,
            ValueModel::Nil => ValueKind::Nil,
        }
    }
}

impl Clone for LoxType {
    fn clone(&self) -> (r: Self)
        ensures
            r@ == self@,
    {
        match self {
            LoxType::String_(s) => LoxType::String_(s.clone()),
            LoxType::Number(n) => LoxType::Number(*n),
            LoxType::Identifier(s) => LoxType::Identifier(s.clone()),
            LoxType::Boolean(b) => LoxType::Boolean(*b),
            LoxType::Nil => LoxType::Nil,
        }
    }
}

impl LoxType {
    /// The kind of this value.
    pub fn kind(&self) -> (k: ValueKind)
        ensures
            k == self@.kind(),
    {
        match self {
            LoxType::String_(_) => ValueKind::String_,
            LoxType::Number(_) => ValueKind::Number,
            LoxType::Identifier(_) => ValueKind::Identifier,
            LoxType::Boolean(_) => ValueKind::Boolean,
            LoxType::Nil => ValueKind::Nil,
        }
    }
}

} // verus!
