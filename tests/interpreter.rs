use std::num::ParseFloatError;
use lox::{
    apply_binary, apply_unary, scan_tokens, ArithOp, AstIntepreter, BinaryOp, Expr, LexingError,
    LoxError, LoxInterpreter, LoxType, NumOrder, Operator, ParsingError, Parser, RuntimeError, Token, TokenType,
    UnaryOp, ValueKind,
};

fn read_number(t: String) -> Result<u64, ParseFloatError> {
    t.parse::<f64>().map(f64::to_bits)
}

fn arith(op: ArithOp, a: u64, b: u64) -> u64 {
    let (x, y) = (f64::from_bits(a), f64::from_bits(b));
    let r = match op {
        ArithOp::Add => x + y,
        ArithOp::Subtract => x - y,
        ArithOp::Multiply => x * y,
        ArithOp::Divide => x / y,
    };
    r.to_bits()
}

fn compare(a: u64, b: u64) -> NumOrder {
    match f64::from_bits(a).partial_cmp(&f64::from_bits(b)) {
        Some(std::cmp::Ordering::Less) => NumOrder::Less,
        Some(std::cmp::Ordering::Equal) => NumOrder::Equal,
        Some(std::cmp::Ordering::Greater) => NumOrder::Greater,
        None => NumOrder::Unordered,
    }
}

type Interp = AstIntepreter<fn(String) -> Result<u64, ParseFloatError>, fn(ArithOp, u64, u64) -> u64, fn(u64, u64) -> NumOrder>;

fn interpreter() -> Interp {
    AstIntepreter::new(read_number, arith, compare)
}

fn run(text: &str) -> Result<LoxType, LoxError> {
    interpreter().eval_source(text)
}

fn num(x: f64) -> LoxType {
    LoxType::Number(x.to_bits())
}

fn parse(text: &str) -> Result<Expr, ParsingError> {
    let tokens = scan_tokens(text, &read_number).unwrap();
    Parser.parse_tokens(&tokens)
}

fn lit(x: f64) -> Box<Expr> {
    Box::new(Expr::Literal(num(x)))
}

#[test]
fn grouping_then_multiplication() {
    assert_eq!(run("(1+2)*3"), Ok(num(9.0)));
}

#[test]
fn multiplication_binds_tighter_than_addition() {
    assert_eq!(run("2+3*4"), Ok(num(14.0)));
}

#[test]
fn right_operand_is_a_whole_equality_expression() {
    assert_eq!(
        parse("8 - 2 - 1"),
        Ok(Expr::Binary(lit(8.0), BinaryOp::Minus, Box::new(Expr::Binary(lit(2.0), BinaryOp::Minus, lit(1.0)))))
    );
    assert_eq!(run("8 - 2 - 1"), Ok(num(7.0)));
}

#[test]
fn equality_of_booleans() {
    assert_eq!(run("true == true"), Ok(LoxType::Boolean(true)));
    assert_eq!(run("true == false"), Ok(LoxType::Boolean(false)));
}

#[test]
fn equality_across_kinds_is_false() {
    assert_eq!(run("\"a\" == 1"), Ok(LoxType::Boolean(false)));
    assert_eq!(run("nil == false"), Ok(LoxType::Boolean(false)));
}

#[test]
fn nil_equals_nil() {
    assert_eq!(run("nil == nil"), Ok(LoxType::Boolean(true)));
}

#[test]
fn equality_of_strings_and_numbers() {
    assert_eq!(run("\"ab\" == \"ab\""), Ok(LoxType::Boolean(true)));
    assert_eq!(run("\"ab\" == \"ba\""), Ok(LoxType::Boolean(false)));
    assert_eq!(run("1.5 == 1.5"), Ok(LoxType::Boolean(true)));
    assert_eq!(run("(0/0) == (0/0)"), Ok(LoxType::Boolean(false)));
}

#[test]
fn bang_equal_is_negated_equality() {
    assert_eq!(run("1 != 2"), Ok(LoxType::Boolean(true)));
    assert_eq!(run("1 != 1"), Ok(LoxType::Boolean(false)));
    let a = Expr::Binary(lit(1.0), BinaryOp::BangEqual, lit(2.0));
    let b = Expr::Unary(UnaryOp::Bang, Box::new(Expr::Binary(lit(1.0), BinaryOp::EqualEqual, lit(2.0))));
    assert_eq!(interpreter().eval(&a), interpreter().eval(&b));
}

#[test]
fn bang_on_number_is_a_type_mismatch() {
    assert_eq!(
        run("!1"),
        Err(LoxError::InnerRuntimeError(RuntimeError::TypeMismatch {
            operator: Operator::Unary(UnaryOp::Bang),
            operand: ValueKind::Number,
            other: None,
        }))
    );
}

#[test]
fn minus_on_string_is_a_type_mismatch() {
    assert_eq!(
        run("-\"a\""),
        Err(LoxError::InnerRuntimeError(RuntimeError::TypeMismatch {
            operator: Operator::Unary(UnaryOp::Minus),
            operand: ValueKind::String_,
            other: None,
        }))
    );
}

#[test]
fn adding_a_boolean_is_a_type_mismatch() {
    assert_eq!(
        run("1 + true"),
        Err(LoxError::InnerRuntimeError(RuntimeError::TypeMismatch {
            operator: Operator::Binary(BinaryOp::Plus),
            operand: ValueKind::Number,
            other: Some(ValueKind::Boolean),
        }))
    );
}

#[test]
fn arithmetic_and_comparison() {
    assert_eq!(run("7 - 10"), Ok(num(-3.0)));
    assert_eq!(run("3 / 2"), Ok(num(1.5)));
    assert_eq!(run("-(2 * 4)"), Ok(num(-8.0)));
    assert_eq!(run("1 < 2"), Ok(LoxType::Boolean(true)));
    assert_eq!(run("2 <= 2"), Ok(LoxType::Boolean(true)));
    assert_eq!(run("1 > 2"), Ok(LoxType::Boolean(false)));
    assert_eq!(run("2 >= 3"), Ok(LoxType::Boolean(false)));
    assert_eq!(run("!(1 > 2)"), Ok(LoxType::Boolean(true)));
}

#[test]
fn division_by_zero_follows_ieee() {
    assert_eq!(run("1 / 0"), Ok(num(f64::INFINITY)));
    match run("0 / 0") {
        Ok(LoxType::Number(bits)) => assert!(f64::from_bits(bits).is_nan()),
        other => panic!("expected NaN, got {:?}", other),
    }
}

#[test]
fn negation_flips_the_sign() {
    assert_eq!(apply_unary(UnaryOp::Minus, num(2.5)), Ok(num(-2.5)));
    assert_eq!(apply_unary(UnaryOp::Minus, num(0.0)), Ok(num(-0.0)));
    assert_eq!(apply_unary(UnaryOp::Bang, LoxType::Boolean(false)), Ok(LoxType::Boolean(true)));
}

#[test]
fn identifier_values_compare_by_text_only_with_identifiers() {
    let a = LoxType::Identifier("x".to_string());
    let b = LoxType::Identifier("x".to_string());
    assert_eq!(apply_binary(BinaryOp::EqualEqual, &a, &b, &arith, &compare), Ok(LoxType::Boolean(true)));
    let s = LoxType::String_("x".to_string());
    assert_eq!(
        apply_binary(BinaryOp::EqualEqual, &a, &s, &arith, &compare),
        Err(RuntimeError::UnsupportedComparison { kind: ValueKind::String_ })
    );
}

#[test]
fn identifier_evaluates_as_its_name() {
    assert_eq!(run("foo"), Ok(LoxType::String_("foo".to_string())));
    assert_eq!(run("foo == \"foo\""), Ok(LoxType::Boolean(true)));
}

#[test]
fn literals_evaluate_to_themselves() {
    assert_eq!(run("\"hi\""), Ok(LoxType::String_("hi".to_string())));
    assert_eq!(run("nil"), Ok(LoxType::Nil));
    assert_eq!(run("false"), Ok(LoxType::Boolean(false)));
    assert_eq!(run("12.5"), Ok(num(12.5)));
}

#[test]
fn missing_closing_paren_is_expected_token() {
    assert_eq!(run("(1 + 2"), Err(LoxError::InnerParsingError(ParsingError::ExpectedToken(TokenType::RightParen))));
}

#[test]
fn wrong_closing_token_is_unexpected() {
    assert_eq!(
        parse("(1 2"),
        Err(ParsingError::UnexpectedToken(Token::new(
            TokenType::Number,
            "2".to_string(),
            Some(num(2.0)),
            0
        )))
    );
}

#[test]
fn leading_operator_token_is_unexpected() {
    assert_eq!(parse("*"), Err(ParsingError::UnexpectedToken(Token::new(TokenType::Star, "*".to_string(), None, 0))));
}

#[test]
fn empty_input_cannot_be_parsed() {
    assert_eq!(run(""), Err(LoxError::InnerParsingError(ParsingError::UnexpectedEnd)));
    assert_eq!(parse("1 +"), Err(ParsingError::UnexpectedEnd));
}

#[test]
fn trailing_tokens_are_ignored() {
    assert_eq!(run("1 2"), Ok(num(1.0)));
}

#[test]
fn scan_errors_come_first() {
    assert_eq!(run("1 + #"), Err(LoxError::InnerLexingError(LexingError::InvalidToken('#'))));
}

#[test]
fn unary_operators_nest() {
    assert_eq!(
        parse("!!true"),
        Ok(Expr::Unary(
            UnaryOp::Bang,
            Box::new(Expr::Unary(UnaryOp::Bang, Box::new(Expr::Literal(LoxType::Boolean(true)))))
        ))
    );
    assert_eq!(run("--3"), Ok(num(3.0)));
}

#[test]
fn interpreter_trait_evaluates_text_and_trees() {
    let it = interpreter();
    assert_eq!(LoxInterpreter::<&str>::eval(&it, "1 + 1"), Ok(num(2.0)));
    let tree = Expr::Unary(UnaryOp::Bang, lit(1.0));
    assert!(matches!(
        LoxInterpreter::<&Expr>::eval(&it, &tree),
        Err(LoxError::InnerRuntimeError(RuntimeError::TypeMismatch { .. }))
    ));
}

#[test]
fn stage_errors_convert_into_lox_errors() {
    assert_eq!(
        LoxError::from(LexingError::InvalidToken('#')),
        LoxError::InnerLexingError(LexingError::InvalidToken('#'))
    );
    assert_eq!(
        LoxError::from(ParsingError::UnexpectedEnd),
        LoxError::InnerParsingError(ParsingError::UnexpectedEnd)
    );
    let e = RuntimeError::UnsupportedComparison { kind: ValueKind::Nil };
    assert_eq!(LoxError::from(e), LoxError::InnerRuntimeError(e));
}
