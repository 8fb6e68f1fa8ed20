//! Front end of a small expression language: a scanner from source text to
//! tokens, a recursive-descent parser from tokens to an expression tree, and a
//! tree-walking evaluator from a tree to a runtime value.
//!
//! Numbers are IEEE-754 binary64 values, held here by their bit patterns. The
//! floating-point work itself (reading a numeral, arithmetic, comparison) is
//! handed in by the caller as functions; every other step is verified.
pub mod ast;
pub mod ast_interpreter;
pub mod error;
pub mod interpreter;
pub mod lexer;
pub mod parser;
pub mod token;
pub mod types;

pub use ast::{BinaryOp, Expr, UnaryOp};
pub use ast_interpreter::{apply_binary, apply_unary, AstIntepreter};
pub use error::{LexingError, LoxError, Operator, ParsingError, RuntimeError};
pub use interpreter::LoxInterpreter;
pub use lexer::scan_tokens;
pub use parser::Parser;
pub use token::{keyword, Token, TokenType};
pub use types::{ArithOp, LoxType, NumOrder, ValueKind, SIGN_BIT};
