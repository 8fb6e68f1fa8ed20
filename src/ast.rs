//! Expression trees and their operators.
use crate::types::{LoxType, ValueModel};
use vstd::prelude::*;

verus! {

/// A prefix operator.
#[derive(Clone, Copy, Debug, PartialEq, Eq, Structural)]
pub enum UnaryOp {
    Bang,
    Minus,
}

/// An infix operator.
#[derive(Clone, Copy, Debug, PartialEq, Eq, Structural)]
pub enum BinaryOp {
    BangEqual,
    EqualEqual,
    Greater,
    GreaterEqual,
    Less,
    LessEqual,
    Plus,
    Minus,
    Star,
    Slash,
}

/// An expression tree. Parenthesised groups are folded into their contents.
#[derive(Debug, PartialEq)]
pub enum Expr {
    Literal(LoxType),
    Unary(UnaryOp, Box<Expr>),
    Binary(Box<Expr>, BinaryOp, Box<Expr>),
}

/// The mathematical content of an [`Expr`].
pub enum ExprModel {
    Literal(ValueModel),
    Unary(UnaryOp, Box<ExprModel>),
    Binary(Box<ExprModel>, BinaryOp, Box<ExprModel>),
}

impl View for Expr {
    type V = ExprModel;

    open spec fn view(&self) -> ExprModel
        decreases self,
    {
        match self {
            Expr::Literal(v) => ExprModel::Literal(v@),
            Expr::Unary(op, e) => ExprModel::Unary(*op, Box::new((**e).view())),
            Expr::Binary(a, op, b) => ExprModel::Binary(
                Box::new((**a).view()),
                *op,
                Box::new((**b).view()),
            ),
        }
    }
}

} // verus!
