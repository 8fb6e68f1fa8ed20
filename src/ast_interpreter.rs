//! The tree-walking evaluator and the whole pipeline from text to value.
use crate::ast::{BinaryOp, Expr, ExprModel, UnaryOp};
use crate::error::{LoxError, LoxErrorModel, Operator, RuntimeError};
use crate::interpreter::LoxInterpreter;
use crate::lexer::{number_reading, reads_numbers, scan, scan_tokens};
use crate::parser::{parse, Parser};
use crate::token::tokens_view;
use crate::types::{ArithOp, LoxType, NumOrder, ValueKind, ValueModel, SIGN_BIT};
use std::num::ParseFloatError;
use vstd::prelude::*;

verus! {

// ---------------------------------------------------------------------------
// The numeric operations handed in by the caller
// ---------------------------------------------------------------------------

/// `arith` may be called on any operands and gives one result for each.
pub open spec fn computes<A: Fn(ArithOp, u64, u64) -> u64>(arith: A) -> bool {
    &&& forall|op: ArithOp, a: u64, b: u64| #[trigger] arith.requires((op, a, b))
    &&& forall|op: ArithOp, a: u64, b: u64, x: u64, y: u64|
        #[trigger] arith.ensures((op, a, b), x) && #[trigger] arith.ensures((op, a, b), y) ==> x == y
}

/// What `arith` gives.
pub open spec fn arith_of<A: Fn(ArithOp, u64, u64) -> u64>(arith: A) -> spec_fn(ArithOp, u64, u64) -> u64 {
    |op: ArithOp, a: u64, b: u64| choose|x: u64| #[trigger] arith.ensures((op, a, b), x)
}

/// `compare` may be called on any operands and gives one result for each.
pub open spec fn orders<C: Fn(u64, u64) -> NumOrder>(compare: C) -> bool {
    &&& forall|a: u64, b: u64| #[trigger] compare.requires((a, b))
    &&& forall|a: u64, b: u64, x: NumOrder, y: NumOrder|
        #[trigger] compare.ensures((a, b), x) && #[trigger] compare.ensures((a, b), y) ==> x == y
}

/// What `compare` gives.
pub open spec fn order_of<C: Fn(u64, u64) -> NumOrder>(compare: C) -> spec_fn(u64, u64) -> NumOrder {
    |a: u64, b: u64| choose|x: NumOrder| #[trigger] compare.ensures((a, b), x)
}

proof fn lemma_arith_of<A: Fn(ArithOp, u64, u64) -> u64>(arith: A, op: ArithOp, a: u64, b: u64, x: u64)
    requires
        computes(arith),
        arith.ensures((op, a, b), x),
    ensures
        arith_of(arith)(op, a, b) == x,
{
    let y = choose|y: u64| #[trigger] arith.ensures((op, a, b), y);
    assert(arith.ensures((op, a, b), y));
}

proof fn lemma_order_of<C: Fn(u64, u64) -> NumOrder>(compare: C, a: u64, b: u64, x: NumOrder)
    requires
        orders(compare),
        compare.ensures((a, b), x),
    ensures
        order_of(compare)(a, b) == x,
{
    let y = choose|y: NumOrder| #[trigger] compare.ensures((a, b), y);
    assert(compare.ensures((a, b), y));
}

// ---------------------------------------------------------------------------
// Evaluation as a function on expression models
// ---------------------------------------------------------------------------

/// A prefix operator applied to a value.
///
/// Negating a binary64 number flips its sign bit.
pub open spec fn unary_result(op: UnaryOp, v: ValueModel) -> Result<ValueModel, RuntimeError> {
    match (op, v) {
        (UnaryOp::Bang, ValueModel::Boolean(b)) => Ok(ValueModel::Boolean(!b)),
        (UnaryOp::Minus, ValueModel::Number(n)) => Ok(ValueModel::Number(n ^ SIGN_BIT)),
        _ => Err(RuntimeError::TypeMismatch { operator: Operator::Unary(op), operand: v.kind(), other: None }),
    }
}

/// Whether two values are equal: booleans, strings and identifiers by their
/// content, numbers by `ord`, `nil` equals `nil`, values of other different
/// kinds never are. An identifier compared with a value of another kind is
/// unsupported, and the error names that other kind.
pub open spec fn equal_values(a: ValueModel, b: ValueModel, ord: spec_fn(u64, u64) -> NumOrder) -> Result<
    bool,
    RuntimeError,
> {
    match (a, b) {
        (ValueModel::Number(x), ValueModel::Number(y)) => Ok(ord(x, y) == NumOrder::Equal),
        (ValueModel::Boolean(x), ValueModel::Boolean(y)) => Ok(x == y),
        (ValueModel::String_(x), ValueModel::String_(y)) => Ok(x == y),
        (ValueModel::Identifier(x), ValueModel::Identifier(y)) => Ok(x == y),
        (ValueModel::Identifier(_), _) => Err(RuntimeError::UnsupportedComparison { kind: b.kind() }),
        (_, ValueModel::Identifier(_)) => Err(RuntimeError::UnsupportedComparison { kind: a.kind() }),
        (ValueModel::Nil, ValueModel::Nil) => Ok(true),
        _ => Ok(false),
    }
}

/// Whether numbers ordered as `o` satisfy the comparison `op`.
pub open spec fn holds(op: BinaryOp, o: NumOrder) -> bool {
    match op {
        BinaryOp::Greater => o == NumOrder::Greater,
        BinaryOp::GreaterEqual => o == NumOrder::Greater || o == NumOrder::Equal,
        BinaryOp::Less => o == NumOrder::Less,
        _ => o == NumOrder::Less || o == NumOrder::Equal,
    }
}

/// The arithmetic operation of an arithmetic operator.
pub open spec fn arith_op(op: BinaryOp) -> ArithOp {
    match op {
        BinaryOp::Plus => ArithOp::Add,
        BinaryOp::Minus => ArithOp::Subtract,
        BinaryOp::Star => ArithOp::Multiply,
        _ => ArithOp::Divide,
    }
}

/// An infix operator applied to two values. `!=` is the negation of `==`.
pub open spec fn binary_result(
    op: BinaryOp,
    a: ValueModel,
    b: ValueModel,
    arith: spec_fn(ArithOp, u64, u64) -> u64,
    ord: spec_fn(u64, u64) -> NumOrder,
) -> Result<ValueModel, RuntimeError> {
    let mismatch = RuntimeError::TypeMismatch { operator: Operator::Binary(op), operand: a.kind(), other: Some(b.kind()) };
    match op {
        BinaryOp::BangEqual => match equal_values(a, b, ord) {
            Ok(x) => unary_result(UnaryOp::Bang, ValueModel::Boolean(x)),
            Err(e) => Err(e),
        },
        BinaryOp::EqualEqual => match equal_values(a, b, ord) {
            Ok(x) => Ok(ValueModel::Boolean(x)),
            Err(e) => Err(e),
        },
        BinaryOp::Greater | BinaryOp::GreaterEqual | BinaryOp::Less | BinaryOp::LessEqual => match (a, b) {
            (ValueModel::Number(x), ValueModel::Number(y)) => Ok(ValueModel::Boolean(holds(op, ord(x, y)))),
            _ => Err(mismatch),
        },
        _ => match (a, b) {
            (ValueModel::Number(x), ValueModel::Number(y)) => Ok(ValueModel::Number(arith(arith_op(op), x, y))),
            _ => Err(mismatch),
        },
    }
}

/// The value of an expression: operands are evaluated left before right, and
/// the first error met is the result.
pub open spec fn eval_model(
    e: ExprModel,
    arith: spec_fn(ArithOp, u64, u64) -> u64,
    ord: spec_fn(u64, u64) -> NumOrder,
) -> Result<ValueModel, RuntimeError>
    decreases e,
{
    match e {
        ExprModel::Literal(v) => Ok(v),
        ExprModel::Unary(op, x) => match eval_model(*x, arith, ord) {
            Ok(v) => unary_result(op, v),
            Err(err) => Err(err),
        },
        ExprModel::Binary(a, op, b) => match eval_model(*a, arith, ord) {
            Err(err) => Err(err),
            Ok(va) => match eval_model(*b, arith, ord) {
                Err(err) => Err(err),
                Ok(vb) => binary_result(op, va, vb, arith, ord),
            },
        },
    }
}

pub open spec fn value_result_view(r: Result<LoxType, RuntimeError>) -> Result<ValueModel, RuntimeError> {
    match r {
        Ok(v) => Ok(v@),
        Err(e) => Err(e),
    }
}

/// `a != b` evaluates exactly as `!(a == b)`.
pub proof fn lemma_bang_equal_is_negated_equality(
    a: ExprModel,
    b: ExprModel,
    arith: spec_fn(ArithOp, u64, u64) -> u64,
    ord: spec_fn(u64, u64) -> NumOrder,
)
    ensures
        eval_model(ExprModel::Binary(Box::new(a), BinaryOp::BangEqual, Box::new(b)), arith, ord)
            == eval_model(
            ExprModel::Unary(
                UnaryOp::Bang,
                Box::new(ExprModel::Binary(Box::new(a), BinaryOp::EqualEqual, Box::new(b))),
            ),
            arith,
            ord,
        ),
{
    let eq = ExprModel::Binary(Box::new(a), BinaryOp::EqualEqual, Box::new(b));
    assert(eval_model(ExprModel::Unary(UnaryOp::Bang, Box::new(eq)), arith, ord) == match eval_model(
        eq,
        arith,
        ord,
    ) {
        Ok(v) => unary_result(UnaryOp::Bang, v),
        Err(err) => Err(err),
    });
}

/// `!` applied to an expression whose value is not a boolean fails with a
/// type mismatch that names the operand's kind; it never coerces.
pub proof fn lemma_bang_needs_boolean(
    e: ExprModel,
    arith: spec_fn(ArithOp, u64, u64) -> u64,
    ord: spec_fn(u64, u64) -> NumOrder,
)
    requires
        eval_model(e, arith, ord) matches Ok(v) && !(v is Boolean),
    ensures
        eval_model(ExprModel::Unary(UnaryOp::Bang, Box::new(e)), arith, ord) == Err::<ValueModel, RuntimeError>(
            RuntimeError::TypeMismatch {
                operator: Operator::Unary(UnaryOp::Bang),
                operand: eval_model(e, arith, ord)->Ok_0.kind(),
                other: None,
            },
        ),
{
}

/// Equality of two values by kind: values of different kinds (neither an
/// identifier) are never equal, `nil` equals `nil`, and a boolean equals
/// itself.
pub proof fn lemma_equality_by_kind(
    a: ValueModel,
    b: ValueModel,
    arith: spec_fn(ArithOp, u64, u64) -> u64,
    ord: spec_fn(u64, u64) -> NumOrder,
)
    ensures
        ({
            let r = eval_model(
                ExprModel::Binary(
                    Box::new(ExprModel::Literal(a)),
                    BinaryOp::EqualEqual,
                    Box::new(ExprModel::Literal(b)),
                ),
                arith,
                ord,
            );
            &&& (a.kind() != b.kind() && !(a is Identifier) && !(b is Identifier)) ==> r
                == Ok::<ValueModel, RuntimeError>(ValueModel::Boolean(false))
            &&& (a is Nil && b is Nil) ==> r == Ok::<ValueModel, RuntimeError>(ValueModel::Boolean(true))
            &&& (a is Boolean && a == b) ==> r == Ok::<ValueModel, RuntimeError>(ValueModel::Boolean(true))
        }),
{
    assert(eval_model(ExprModel::Literal(a), arith, ord) == Ok::<ValueModel, RuntimeError>(a));
    assert(eval_model(ExprModel::Literal(b), arith, ord) == Ok::<ValueModel, RuntimeError>(b));
}

// ---------------------------------------------------------------------------
// Evaluation
// ---------------------------------------------------------------------------

/// Applies a prefix operator to a value.
pub fn apply_unary(op: UnaryOp, v: LoxType) -> (r: Result<LoxType, RuntimeError>)
    ensures
        value_result_view(r) == unary_result(op, v@),
{
    match (op, &v) {
        (UnaryOp::Bang, LoxType::Boolean(b)) => Ok(LoxType::Boolean(!*b)),
        (UnaryOp::Minus, LoxType::Number(n)) => Ok(LoxType::Number(*n ^ SIGN_BIT)),
        _ => Err(RuntimeError::TypeMismatch { operator: Operator::Unary(op), operand: v.kind(), other: None }),
    }
}

fn equal_values_of<C: Fn(u64, u64) -> NumOrder>(a: &LoxType, b: &LoxType, compare: &C) -> (r: Result<
    bool,
    RuntimeError,
>)
    requires
        orders(*compare),
    ensures
        r == equal_values(a@, b@, order_of(*compare)),
{
    match (a, b) {
        (LoxType::Number(x), LoxType::Number(y)) => {
            let o = compare(*x, *y);
            proof {
                lemma_order_of(*compare, *x, *y, o);
            }
            Ok(o == NumOrder::Equal)
        },
        (LoxType::Boolean(x), LoxType::Boolean(y)) => Ok(*x == *y),
        (LoxType::String_(x), LoxType::String_(y)) => Ok(x.eq(y)),
        (LoxType::Identifier(x), LoxType::Identifier(y)) => Ok(x.eq(y)),
        (LoxType::Identifier(_), _) => Err(RuntimeError::UnsupportedComparison { kind: b.kind() }),
        (_, LoxType::Identifier(_)) => Err(RuntimeError::UnsupportedComparison { kind: a.kind() }),
        (LoxType::Nil, LoxType::Nil) => Ok(true),
        _ => Ok(false),
    }
}

/// Applies an infix operator to two values, with `arith` and `compare` for
/// the numeric work.
pub fn apply_binary<A: Fn(ArithOp, u64, u64) -> u64, C: Fn(u64, u64) -> NumOrder>(
    op: BinaryOp,
    a: &LoxType,
    b: &LoxType,
    arith: &A,
    compare: &C,
) -> (r: Result<LoxType, RuntimeError>)
    requires
        computes(*arith),
        orders(*compare),
    ensures
        value_result_view(r) == binary_result(op, a@, b@, arith_of(*arith), order_of(*compare)),
{
    let mismatch = RuntimeError::TypeMismatch { operator: Operator::Binary(op), operand: a.kind(), other: Some(b.kind()) };
    match op {
        BinaryOp::BangEqual => match equal_values_of(a, b, compare) {
            Ok(x) => apply_unary(UnaryOp::Bang, LoxType::Boolean(x)),
            Err(e) => Err(e),
        },
        BinaryOp::EqualEqual => match equal_values_of(a, b, compare) {
            Ok(x) => Ok(LoxType::Boolean(x)),
            Err(e) => Err(e),
        },
        BinaryOp::Greater | BinaryOp::GreaterEqual | BinaryOp::Less | BinaryOp::LessEqual => match (a, b) {
            (LoxType::Number(x), LoxType::Number(y)) => {
                let o = compare(*x, *y);
                proof {
                    lemma_order_of(*compare, *x, *y, o);
                }
                let r = match op {
                    BinaryOp::Greater => o == NumOrder::Greater,
                    BinaryOp::GreaterEqual => o == NumOrder::Greater || o == NumOrder::Equal,
                    BinaryOp::Less => o == NumOrder::Less,
                    _ => o == NumOrder::Less || o == NumOrder::Equal,
                };
                Ok(LoxType::Boolean(r))
            },
            _ => Err(mismatch),
        },
        _ => match (a, b) {
            (LoxType::Number(x), LoxType::Number(y)) => {
                let aop = match op {
                    BinaryOp::Plus => ArithOp::Add,
                    BinaryOp::Minus => ArithOp::Subtract,
                    BinaryOp::Star => ArithOp::Multiply,
                    _ => ArithOp::Divide,
                };
                let n = arith(aop, *x, *y);
                proof {
                    lemma_arith_of(*arith, aop, *x, *y, n);
                }
                Ok(LoxType::Number(n))
            },
            _ => Err(mismatch),
        },
    }
}

/// What a whole source text evaluates to: it is scanned (numerals read by
/// `num`), parsed, and the tree evaluated; the first stage that fails gives
/// the error.
pub open spec fn interpret(
    s: Seq<char>,
    num: spec_fn(Seq<char>) -> Result<u64, ParseFloatError>,
    arith: spec_fn(ArithOp, u64, u64) -> u64,
    ord: spec_fn(u64, u64) -> NumOrder,
) -> Result<ValueModel, LoxErrorModel> {
    match scan(s, num) {
        Err(e) => Err(LoxErrorModel::InnerLexingError(e)),
        Ok(ts) => match parse(ts) {
            Err(e) => Err(LoxErrorModel::InnerParsingError(e)),
            Ok(tree) => match eval_model(tree, arith, ord) {
                Err(e) => Err(LoxErrorModel::InnerRuntimeError(e)),
                Ok(v) => Ok(v),
            },
        },
    }
}

/// A tree-walking evaluator, with the floating-point work it hands out:
/// reading a numeral, arithmetic, and comparison of two numbers.
pub struct AstIntepreter<P, A, C> {
    pub read_number: P,
    pub arith: A,
    pub compare: C,
}

impl<
    P: Fn(String) -> Result<u64, ParseFloatError>,
    A: Fn(ArithOp, u64, u64) -> u64,
    C: Fn(u64, u64) -> NumOrder,
> AstIntepreter<P, A, C> {
    /// Each of the three operations may be called on any input and gives one
    /// result for each.
    pub open spec fn well_formed(&self) -> bool {
        &&& reads_numbers(self.read_number)
        &&& computes(self.arith)
        &&& orders(self.compare)
    }

    /// The value of the model `e` under this evaluator's numeric operations.
    pub open spec fn value_of(&self, e: ExprModel) -> Result<ValueModel, RuntimeError> {
        eval_model(e, arith_of(self.arith), order_of(self.compare))
    }

    pub fn new(read_number: P, arith: A, compare: C) -> (r: Self)
        ensures
            r.read_number == read_number,
            r.arith == arith,
            r.compare == compare,
    {
        AstIntepreter { read_number, arith, compare }
    }

    fn eval_rec(&self, ast: &Expr) -> (r: Result<LoxType, RuntimeError>)
        requires
            self.well_formed(),
        ensures
            value_result_view(r) == self.value_of(ast@),
        decreases ast,
    {
        match ast {
            Expr::Literal(v) => Ok(v.clone()),
            Expr::Unary(op, operand) => {
                let v = match self.eval_rec(operand) {
                    Ok(v) => v,
                    Err(e) => {
                        return Err(e);
                    },
                };
                apply_unary(*op, v)
            },
            Expr::Binary(left, op, right) => {
                let a = match self.eval_rec(left) {
                    Ok(v) => v,
                    Err(e) => {
                        return Err(e);
                    },
                };
                let b = match self.eval_rec(right) {
                    Ok(v) => v,
                    Err(e) => {
                        return Err(e);
                    },
                };
                apply_binary(*op, &a, &b, &self.arith, &self.compare)
            },
        }
    }

    /// Evaluates an expression tree to a value, or to the first runtime
    /// error met, exactly as [`eval_model`] says.
    pub fn eval(&self, ast: &Expr) -> (r: Result<LoxType, RuntimeError>)
        requires
            self.well_formed(),
        ensures
            value_result_view(r) == self.value_of(ast@),
    {
        self.eval_rec(ast)
    }

    /// Scans, parses and evaluates a source text, exactly as [`interpret`] says.
    pub fn eval_source(&self, text: &str) -> (r: Result<LoxType, LoxError>)
        requires
            self.well_formed(),
        ensures
            match r {
                Ok(v) => interpret(text@, number_reading(self.read_number), arith_of(self.arith), order_of(self.compare))
                    == Ok::<ValueModel, LoxErrorModel>(v@),
                Err(e) => interpret(text@, number_reading(self.read_number), arith_of(self.arith), order_of(self.compare))
                    == Err::<ValueModel, LoxErrorModel>(e@),
            },
    {
        let tokens = match scan_tokens(text, &self.read_number) {
            Ok(t) => t,
            Err(e) => {
                return Err(LoxError::from(e));
            },
        };
        let parser = Parser;
        let tree = match parser.parse_tokens(tokens.as_slice()) {
            Ok(t) => t,
            Err(e) => {
                return Err(LoxError::from(e));
            },
        };
        match self.eval(&tree) {
            Ok(v) => Ok(v),
            Err(e) => Err(LoxError::from(e)),
        }
    }
}

impl<
    'a,
    P: Fn(String) -> Result<u64, ParseFloatError>,
    A: Fn(ArithOp, u64, u64) -> u64,
    C: Fn(u64, u64) -> NumOrder,
> LoxInterpreter<&'a str> for AstIntepreter<P, A, C> {
    open spec fn ready(&self) -> bool {
        self.well_formed()
    }

    /// The whole pipeline on the text, as [`interpret`] says.
    open spec fn outcome(&self, input: &'a str) -> Result<ValueModel, LoxErrorModel> {
        interpret(input@, number_reading(self.read_number), arith_of(self.arith), order_of(self.compare))
    }

    fn eval(&self, input: &'a str) -> (r: Result<LoxType, LoxError>) {
        self.eval_source(input)
    }
}

impl<
    'a,
    P: Fn(String) -> Result<u64, ParseFloatError>,
    A: Fn(ArithOp, u64, u64) -> u64,
    C: Fn(u64, u64) -> NumOrder,
> LoxInterpreter<&'a Expr> for AstIntepreter<P, A, C> {
    open spec fn ready(&self) -> bool {
        self.well_formed()
    }

    /// The value of the tree, a runtime error wrapped as such.
    open spec fn outcome(&self, input: &'a Expr) -> Result<ValueModel, LoxErrorModel> {
        match self.value_of(input@) {
            Ok(v) => Ok(v),
            Err(e) => Err(LoxErrorModel::InnerRuntimeError(e)),
        }
    }

    fn eval(&self, input: &'a Expr) -> (r: Result<LoxType, LoxError>) {
        match self.eval_rec(input) {
            Ok(v) => Ok(v),
            Err(e) => Err(LoxError::InnerRuntimeError(e)),
        }
    }
}

} // verus!
