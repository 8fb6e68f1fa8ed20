use std::num::ParseFloatError;
use lox::{scan_tokens, LexingError, LoxType, Token, TokenType};

fn read_number(t: String) -> Result<u64, ParseFloatError> {
    t.parse::<f64>().map(f64::to_bits)
}

fn parse_error(numeral: &str) -> ParseFloatError {
    numeral.parse::<f64>().unwrap_err()
}

fn scan(text: &str) -> Result<Vec<Token>, LexingError> {
    scan_tokens(text, &read_number)
}

fn number(lexeme: &str, value: f64, line: usize) -> Token {
    Token::new(TokenType::Number, lexeme.to_string(), Some(LoxType::Number(value.to_bits())), line)
}

fn plain(kind: TokenType, lexeme: &str, line: usize) -> Token {
    Token::new(kind, lexeme.to_string(), None, line)
}

#[test]
fn test_good_numbers() {
    for text in ["var foo = 123;", "var foo = 123\n\n\n", "var foo = 123"] {
        let res = scan(text).unwrap();
        assert_eq!(&res[3], &number("123", 123f64, 0));
    }
}

#[test]
fn test_invalid_number() {
    let res = scan("var foo = 123f456");
    match res {
        Err(LexingError::InvalidDigit { line_num: _, .. }) => {}
        other => panic!("Wrong error type {:?}. Expected Invalid Digit.", other),
    }
}

#[test]
fn test_string_double_eq_number() {
    let res = scan("\"asdf\" == 123.456").unwrap();
    assert_eq!(
        &res[0],
        &Token::new(
            TokenType::String_,
            "\"asdf\"".to_string(),
            Some(LoxType::String_("asdf".to_string())),
            0
        )
    );
    assert_eq!(&res[1], &plain(TokenType::EqualEqual, "==", 0));
    assert_eq!(&res[2], &number("123.456", 123.456, 0));
}

#[test]
fn test_line_number() {
    let res = scan("\n123.456").unwrap();
    assert_eq!(&res[0], &number("123.456", 123.456, 1));
}

#[test]
fn test_identifier() {
    let res = scan("var foobar = 123.456").unwrap();
    assert_eq!(&res[0], &plain(TokenType::Var, "var", 0));
    assert_eq!(
        &res[1],
        &Token::new(
            TokenType::Identifier,
            "foobar".to_string(),
            Some(LoxType::Identifier("foobar".to_string())),
            0
        )
    );
    assert_eq!(&res[2], &plain(TokenType::Equal, "=", 0));
    assert_eq!(&res[3], &number("123.456", 123.456, 0));
    assert_eq!(res.len(), 4);
}

#[test]
fn test_comments() {
    let res = scan("//HIII THEREEEEE\nvar").unwrap();
    assert_eq!(&res[0], &plain(TokenType::Var, "var", 1));
}

#[test]
fn comment_then_keyword_is_single_token_on_line_one() {
    let res = scan("// anything\nvar").unwrap();
    assert_eq!(res, vec![plain(TokenType::Var, "var", 1)]);
}

#[test]
fn comment_at_end_of_input_ends_the_scan() {
    let res = scan("1 // no newline after this").unwrap();
    assert_eq!(res, vec![number("1", 1.0, 0)]);
}

#[test]
fn unterminated_string_fails() {
    assert_eq!(scan("\"abc"), Err(LexingError::UnexpectedEndStringLiteral { line_num: 0 }));
}

#[test]
fn unterminated_string_reports_its_opening_line() {
    assert_eq!(scan("\n\n\"abc\ndef"), Err(LexingError::UnexpectedEndStringLiteral { line_num: 2 }));
}

#[test]
fn invalid_numeral_fails_with_invalid_digit() {
    assert_eq!(scan("123f456"), Err(LexingError::InvalidDigit { line_num: 0, err: parse_error("123f456") }));
}

#[test]
fn numeral_with_two_dots_fails() {
    assert_eq!(scan("\n1.2.3"), Err(LexingError::InvalidDigit { line_num: 1, err: parse_error("1.2.3") }));
}

#[test]
fn invalid_character_fails_with_invalid_token() {
    assert_eq!(scan("1 # 2"), Err(LexingError::InvalidToken('#')));
}

#[test]
fn decimal_numeral_scans_to_one_number_token() {
    for (text, value) in [("0", 0.0), ("42", 42.0), ("123.456", 123.456), ("0.5", 0.5)] {
        assert_eq!(scan(text).unwrap(), vec![number(text, value, 0)]);
    }
}

#[test]
fn token_line_counts_preceding_newlines() {
    let res = scan("\n\n\nfoo").unwrap();
    assert_eq!(res[0].line, 3);
    let res = scan("\"a\nb\" x\n(").unwrap();
    assert_eq!(res[0].line, 0);
    assert_eq!(res[1].line, 1);
    assert_eq!(res[2].line, 2);
}

#[test]
fn empty_input_has_no_tokens() {
    assert_eq!(scan("").unwrap(), vec![]);
    assert_eq!(scan(" \t\r\n").unwrap(), vec![]);
}

#[test]
fn operators_take_a_trailing_equal_sign() {
    let res = scan("!= ! == = <= < >= > / ( ) { } , . - + ; *").unwrap();
    let kinds: Vec<TokenType> = res.iter().map(|t| t.token_type).collect();
    assert_eq!(
        kinds,
        vec![
            TokenType::BangEqual,
            TokenType::Bang,
            TokenType::EqualEqual,
            TokenType::Equal,
            TokenType::LessEqual,
            TokenType::Less,
            TokenType::GreaterEqual,
            TokenType::Greater,
            TokenType::Slash,
            TokenType::LeftParen,
            TokenType::RightParen,
            TokenType::LeftBrace,
            TokenType::RightBrace,
            TokenType::Comma,
            TokenType::Dot,
            TokenType::Minus,
            TokenType::Plus,
            TokenType::Semicolon,
            TokenType::Star,
        ]
    );
    assert_eq!(res[0].lexeme, "!=");
}

#[test]
fn reserved_words_are_keywords_and_others_identifiers() {
    let res = scan("and class else false fun for if nil or print return super this true var while varx").unwrap();
    let kinds: Vec<TokenType> = res.iter().map(|t| t.token_type).collect();
    assert_eq!(
        kinds,
        vec![
            TokenType::And,
            TokenType::Class,
            TokenType::Else,
            TokenType::False,
            TokenType::Fun,
            TokenType::For,
            TokenType::If,
            TokenType::Nil,
            TokenType::Or,
            TokenType::Print,
            TokenType::Return,
            TokenType::Super,
            TokenType::This,
            TokenType::True,
            TokenType::Var,
            TokenType::While,
            TokenType::Identifier,
        ]
    );
    assert_eq!(res[15].literal, None);
    assert_eq!(res[16].literal, Some(LoxType::Identifier("varx".to_string())));
}

#[test]
fn identifier_ends_before_punctuation() {
    let res = scan("foo(bar)").unwrap();
    let lexemes: Vec<&str> = res.iter().map(|t| t.lexeme.as_str()).collect();
    assert_eq!(lexemes, vec!["foo", "(", "bar", ")"]);
}

#[test]
fn numeral_runs_on_through_any_alphanumeric() {
    assert_eq!(scan("12\u{e9}"), Err(LexingError::InvalidDigit { line_num: 0, err: parse_error("12\u{e9}") }));
    assert_eq!(scan("12 \u{e9}"), Err(LexingError::InvalidToken('\u{e9}')));
}
