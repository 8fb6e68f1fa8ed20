//! The scanner: source text to tokens, with the laws it obeys.
use crate::error::LexingError;
use crate::token::{keyword, keyword_kind, tokens_view, Token, TokenModel, TokenType};
use crate::types::{LoxType, ValueModel};
use itertools::Itertools;
use std::num::ParseFloatError;
use vstd::std_specs::iter::IteratorSpec;
use vstd::prelude::*;

verus! {

// ---------------------------------------------------------------------------
// Reading numerals
// ---------------------------------------------------------------------------

/// `read` may be called on any text and gives one result for each text: it
/// reads a numeral as the bit pattern of a binary64 number, or fails with
/// the reason.
pub open spec fn reads_numbers<P: Fn(String) -> Result<u64, ParseFloatError>>(read: P) -> bool {
    &&& forall|t: String| #[trigger] read.requires((t,))
    &&& forall|t1: String, t2: String, x1: Result<u64, ParseFloatError>, x2: Result<u64, ParseFloatError>|
        #[trigger] read.ensures((t1,), x1) && #[trigger] read.ensures((t2,), x2) && t1@ == t2@
            ==> x1 == x2
}

/// `read` may give `x` for the text `w`.
pub open spec fn may_read<P: Fn(String) -> Result<u64, ParseFloatError>>(read: P, w: Seq<char>, x: Result<u64, ParseFloatError>) -> bool {
    exists|t: String| t@ == w && #[trigger] read.ensures((t,), x)
}

/// What `read` gives for the text `w`.
pub open spec fn number_reading<P: Fn(String) -> Result<u64, ParseFloatError>>(read: P) -> spec_fn(Seq<char>) -> Result<u64, ParseFloatError> {
    |w: Seq<char>| choose|x: Result<u64, ParseFloatError>| #[trigger] may_read(read, w, x)
}

proof fn lemma_number_reading<P: Fn(String) -> Result<u64, ParseFloatError>>(read: P, t: String, x: Result<u64, ParseFloatError>)
    requires
        reads_numbers(read),
        read.ensures((t,), x),
    ensures
        number_reading(read)(t@) == x,
{
    let w = t@;
    assert(may_read(read, w, x));
    let y = choose|y: Result<u64, ParseFloatError>| #[trigger] may_read(read, w, y);
    let t2 = choose|t2: String| t2@ == w && #[trigger] read.ensures((t2,), y);
    assert(read.ensures((t2,), y) && read.ensures((t,), x));
}

// ---------------------------------------------------------------------------
// The scanner as a function on character sequences
// ---------------------------------------------------------------------------

/// The character after position `i`, or `'\0'` past the end.
pub open spec fn peek(s: Seq<char>, i: int) -> char {
    if i + 1 < s.len() {
        s[i + 1]
    } else {
        '\0'
    }
}

pub open spec fn is_digit(c: char) -> bool {
    '0' <= c <= '9'
}

pub open spec fn is_letter(c: char) -> bool {
    ('a' <= c <= 'z') || ('A' <= c <= 'Z')
}

pub open spec fn is_word_char(c: char) -> bool {
    is_letter(c) || is_digit(c)
}

/// Whether `c` is alphabetic or numeric in Unicode, as `char::is_alphanumeric`
/// says.
pub uninterp spec fn alphanumeric(c: char) -> bool;

/// Characters past the ASCII range that are letters or digits.
pub open spec fn wide_alphanumeric(c: char) -> bool {
    c > '\u{7f}' && alphanumeric(c)
}

/// Characters that continue a word (ASCII letters and digits), and with
/// `numeral` those that continue a numeral: also dots and every other
/// alphanumeric character.
pub open spec fn word_like(numeral: bool) -> spec_fn(char) -> bool {
    |x: char| is_word_char(x) || (numeral && (x == '.' || wide_alphanumeric(x)))
}

/// Characters other than `stop`.
pub open spec fn other_than(stop: char) -> spec_fn(char) -> bool {
    |x: char| x != stop
}

/// The first position at or after `j` whose character does not satisfy `p`,
/// or the length of `s`.
pub open spec fn run_end(s: Seq<char>, j: int, p: spec_fn(char) -> bool) -> int
    decreases s.len() - j,
{
    if 0 <= j < s.len() && p(s[j]) {
        run_end(s, j + 1, p)
    } else {
        j
    }
}

/// The number of line breaks in `q`.
pub open spec fn newlines(q: Seq<char>) -> nat
    decreases q.len(),
{
    if q.len() == 0 {
        0
    } else {
        newlines(q.drop_last()) + if q.last() == '\n' {
            1nat
        } else {
            0nat
        }
    }
}

pub open spec fn simple_token(s: Seq<char>, i: int, len: int, kind: TokenType, line: nat) -> TokenModel {
    TokenModel { token_type: kind, lexeme: s.subrange(i, i + len), literal: None, line }
}

/// The kind of a token of one character that never starts a longer one.
pub open spec fn single_kind(c: char) -> Option<TokenType> {
    if c == '(' {
        Some(TokenType::LeftParen)
    } else if c == ')' {
        Some(TokenType::RightParen)
    } else if c == '{' {
        Some(TokenType::LeftBrace)
    } else if c == '}' {
        Some(TokenType::RightBrace)
    } else if c == ',' {
        Some(TokenType::Comma)
    } else if c == '.' {
        Some(TokenType::Dot)
    } else if c == '-' {
        Some(TokenType::Minus)
    } else if c == '+' {
        Some(TokenType::Plus)
    } else if c == ';' {
        Some(TokenType::Semicolon)
    } else if c == '*' {
        Some(TokenType::Star)
    } else {
        None
    }
}

/// For `!`, `=`, `<` and `>`: the kind alone and the kind when `=` follows.
pub open spec fn operator_kinds(c: char) -> Option<(TokenType, TokenType)> {
    if c == '!' {
        Some((TokenType::Bang, TokenType::BangEqual))
    } else if c == '=' {
        Some((TokenType::Equal, TokenType::EqualEqual))
    } else if c == '<' {
        Some((TokenType::Less, TokenType::LessEqual))
    } else if c == '>' {
        Some((TokenType::Greater, TokenType::GreaterEqual))
    } else {
        None
    }
}

/// The number token whose numeral starts at `i`: the longest run of letters,
/// digits and dots there, read by `num`; and the position after it.
pub open spec fn number_token(s: Seq<char>, i: int, line: nat, num: spec_fn(Seq<char>) -> Result<u64, ParseFloatError>) -> Result<
    (TokenModel, int),
    LexingError,
> {
    let e = run_end(s, i + 1, word_like(true));
    let w = s.subrange(i, e);
    match num(w) {
        Ok(b) => Ok(
            (
                TokenModel {
                    token_type: TokenType::Number,
                    lexeme: w,
                    literal: Some(ValueModel::Number(b)),
                    line,
                },
                e,
            ),
        ),
        Err(err) => Err(LexingError::InvalidDigit { line_num: line as usize, err }),
    }
}

/// The token of the word `w`: a keyword, or else an identifier carrying its text.
pub open spec fn ident_or_keyword(w: Seq<char>, line: nat) -> TokenModel {
    match keyword_kind(w) {
        Some(k) => TokenModel { token_type: k, lexeme: w, literal: None, line },
        None => TokenModel {
            token_type: TokenType::Identifier,
            lexeme: w,
            literal: Some(ValueModel::Identifier(w)),
            line,
        },
    }
}

/// The token of the word that starts at `i`: the longest run of letters and
/// digits there; and the position after it.
pub open spec fn word_token(s: Seq<char>, i: int, line: nat) -> (TokenModel, int) {
    let e = run_end(s, i + 1, word_like(false));
    (ident_or_keyword(s.subrange(i, e), line), e)
}

/// One step of the scanner at position `i < s.len()` on line `line`: the
/// token that starts there (none for blanks and comments), the position
/// after it and the line there.
pub open spec fn scan_step(s: Seq<char>, i: int, line: nat, num: spec_fn(Seq<char>) -> Result<u64, ParseFloatError>)
    -> Result<(Option<TokenModel>, int, nat), LexingError> {
    let c = s[i];
    let d = peek(s, i);
    if single_kind(c) is Some {
        Ok((Some(simple_token(s, i, 1, single_kind(c)->0, line)), i + 1, line))
    } else if operator_kinds(c) is Some {
        let (alone, with_equal) = operator_kinds(c)->0;
        if d == '=' {
            Ok((Some(simple_token(s, i, 2, with_equal, line)), i + 2, line))
        } else {
            Ok((Some(simple_token(s, i, 1, alone, line)), i + 1, line))
        }
    } else if c == '/' {
        if d == '/' {
            Ok((None, run_end(s, i + 2, other_than('\n')), line))
        } else {
            Ok((Some(simple_token(s, i, 1, TokenType::Slash, line)), i + 1, line))
        }
    } else if c == ' ' || c == '\r' || c == '\t' {
        Ok((None, i + 1, line))
    } else if c == '\n' {
        Ok((None, i + 1, line + 1))
    } else if c == '"' {
        let e = run_end(s, i + 1, other_than('"'));
        if e >= s.len() {
            Err(LexingError::UnexpectedEndStringLiteral { line_num: line as usize })
        } else {
            let body = s.subrange(i + 1, e);
            Ok((
                Some(
                    TokenModel {
                        token_type: TokenType::String_,
                        lexeme: s.subrange(i, e + 1),
                        literal: Some(ValueModel::String_(body)),
                        line,
                    },
                ),
                e + 1,
                line + newlines(body),
            ))
        }
    } else if is_digit(c) {
        match number_token(s, i, line, num) {
            Ok((t, e)) => Ok((Some(t), e, line)),
            Err(err) => Err(err),
        }
    } else if is_letter(c) {
        let (t, e) = word_token(s, i, line);
        Ok((Some(t), e, line))
    } else {
        Err(LexingError::InvalidToken(c))
    }
}

/// Puts the tokens `prefix` in front of what a scan gave.
pub open spec fn glue(prefix: Seq<TokenModel>, r: Result<Seq<TokenModel>, LexingError>) -> Result<
    Seq<TokenModel>,
    LexingError,
> {
    match r {
        Ok(rest) => Ok(prefix + rest),
        Err(e) => Err(e),
    }
}

pub open spec fn optional_token(t: Option<TokenModel>) -> Seq<TokenModel> {
    match t {
        Some(t) => seq![t],
        None => seq![],
    }
}

/// The tokens of `s` from position `i` on, scanning from line `line`.
pub open spec fn scan_from(s: Seq<char>, i: int, line: nat, num: spec_fn(Seq<char>) -> Result<u64, ParseFloatError>)
    -> Result<Seq<TokenModel>, LexingError>
    decreases s.len() - i,
{
    if i < 0 || i >= s.len() {
        Ok(seq![])
    } else {
        match scan_step(s, i, line, num) {
            Err(e) => Err(e),
            Ok((t, next, next_line)) => if i < next <= s.len() {
                glue(optional_token(t), scan_from(s, next, next_line, num))
            } else {
                Ok(seq![])
            },
        }
    }
}

/// The tokens of the source text `s`, numerals read by `num`.
pub open spec fn scan(s: Seq<char>, num: spec_fn(Seq<char>) -> Result<u64, ParseFloatError>) -> Result<
    Seq<TokenModel>,
    LexingError,
> {
    scan_from(s, 0, 0, num)
}

pub open spec fn scan_result_view(r: Result<Vec<Token>, LexingError>) -> Result<Seq<TokenModel>, LexingError> {
    match r {
        Ok(v) => Ok(tokens_view(v@)),
        Err(e) => Err(e),
    }
}

// ---------------------------------------------------------------------------
// Laws of the scanner
// ---------------------------------------------------------------------------

proof fn lemma_run_end_bounds(s: Seq<char>, j: int, p: spec_fn(char) -> bool)
    requires
        0 <= j <= s.len(),
    ensures
        j <= run_end(s, j, p) <= s.len(),
        forall|k: int| j <= k < run_end(s, j, p) ==> p(s[k]),
        run_end(s, j, p) < s.len() ==> !p(s[run_end(s, j, p)]),
    decreases s.len() - j,
{
    if j < s.len() && p(s[j]) {
        lemma_run_end_bounds(s, j + 1, p);
    }
}

proof fn lemma_run_end_full(s: Seq<char>, j: int, p: spec_fn(char) -> bool)
    requires
        0 <= j <= s.len(),
        forall|k: int| j <= k < s.len() ==> p(s[k]),
    ensures
        run_end(s, j, p) == s.len(),
    decreases s.len() - j,
{
    if j < s.len() {
        lemma_run_end_full(s, j + 1, p);
    }
}

proof fn lemma_newlines_concat(a: Seq<char>, b: Seq<char>)
    ensures
        newlines(a + b) == newlines(a) + newlines(b),
    decreases b.len(),
{
    if b.len() == 0 {
        assert(a + b =~= a);
    } else {
        assert((a + b).drop_last() =~= a + b.drop_last());
        lemma_newlines_concat(a, b.drop_last());
    }
}

proof fn lemma_newlines_single(c: char)
    ensures
        newlines(seq![c]) == if c == '\n' {
            1nat
        } else {
            0nat
        },
{
    assert(seq![c].drop_last() =~= Seq::<char>::empty());
    assert(newlines(Seq::<char>::empty()) == 0);
}

proof fn lemma_newlines_none(q: Seq<char>)
    requires
        forall|k: int| 0 <= k < q.len() ==> q[k] != '\n',
    ensures
        newlines(q) == 0,
    decreases q.len(),
{
    if q.len() > 0 {
        lemma_newlines_none(q.drop_last());
    }
}

/// A non-empty text of decimal digits.
pub open spec fn all_digits(q: Seq<char>) -> bool {
    q.len() > 0 && forall|k: int| 0 <= k < q.len() ==> is_digit(#[trigger] q[k])
}

/// A text of digits, optionally followed by a dot and more digits.
pub open spec fn is_decimal_numeral(s: Seq<char>) -> bool {
    all_digits(s) || exists|k: int|
        0 < k < s.len() && s[k] == '.' && all_digits(s.subrange(0, k)) && all_digits(
            #[trigger] s.subrange(k + 1, s.len() as int),
        )
}

/// A decimal numeral starts with a digit, and each of its characters is a
/// digit or a dot.
proof fn lemma_numeral_chars(s: Seq<char>)
    requires
        is_decimal_numeral(s),
    ensures
        s.len() > 0,
        is_digit(s[0]),
        forall|k: int| 0 <= k < s.len() ==> is_digit(#[trigger] s[k]) || s[k] == '.',
{
    if !all_digits(s) {
        let m = choose|m: int|
            0 < m < s.len() && s[m] == '.' && all_digits(s.subrange(0, m)) && all_digits(
                #[trigger] s.subrange(m + 1, s.len() as int),
            );
        assert(is_digit(s.subrange(0, m)[0]));
        assert forall|k: int| 0 <= k < s.len() implies is_digit(#[trigger] s[k]) || s[k] == '.' by {
            if k < m {
                assert(is_digit(s.subrange(0, m)[k]));
            } else if k > m {
                assert(is_digit(s.subrange(m + 1, s.len() as int)[k - m - 1]));
            }
        }
    }
}

/// A decimal numeral scans to exactly one number token on line 0: its
/// lexeme is the numeral and its value what `num` reads from it (the scan
/// fails with `InvalidDigit`, carrying `num`'s error, where `num` fails).
pub proof fn lemma_numeral_scans_to_one_number(s: Seq<char>, num: spec_fn(Seq<char>) -> Result<u64, ParseFloatError>)
    requires
        is_decimal_numeral(s),
    ensures
        scan(s, num) == match num(s) {
            Ok(b) => Ok::<Seq<TokenModel>, LexingError>(
                seq![
                    TokenModel {
                        token_type: TokenType::Number,
                        lexeme: s,
                        literal: Some(ValueModel::Number(b)),
                        line: 0,
                    },
                ],
            ),
            Err(err) => Err(LexingError::InvalidDigit { line_num: 0, err }),
        },
{
    lemma_numeral_chars(s);
    assert forall|k: int| 1 <= k < s.len() implies word_like(true)(s[k]) by {
        assert(is_digit(s[k]) || s[k] == '.');
    }
    lemma_run_end_full(s, 1, word_like(true));
    assert(s.subrange(0, s.len() as int) =~= s);
    assert(single_kind(s[0]) is None);
    assert(operator_kinds(s[0]) is None);
    assert(scan_from(s, s.len() as int, 0, num) == Ok::<Seq<TokenModel>, LexingError>(seq![]));
    let t = seq![
        TokenModel {
            token_type: TokenType::Number,
            lexeme: s,
            literal: Some(ValueModel::Number(num(s)->Ok_0)),
            line: 0,
        },
    ];
    assert(t + seq![] =~= t);
}

/// Where each token of a scan from position `i` starts.
pub open spec fn token_starts(s: Seq<char>, i: int, line: nat, num: spec_fn(Seq<char>) -> Result<u64, ParseFloatError>) -> Seq<int>
    decreases s.len() - i,
{
    if i < 0 || i >= s.len() {
        seq![]
    } else {
        match scan_step(s, i, line, num) {
            Err(_) => seq![],
            Ok((t, next, next_line)) => if i < next <= s.len() {
                (if t is Some {
                    seq![i]
                } else {
                    seq![]
                }) + token_starts(s, next, next_line, num)
            } else {
                seq![]
            },
        }
    }
}

proof fn lemma_step_lines(s: Seq<char>, i: int, line: nat, num: spec_fn(Seq<char>) -> Result<u64, ParseFloatError>)
    requires
        0 <= i < s.len(),
        scan_step(s, i, line, num) is Ok,
    ensures
        ({
            let (t, next, next_line) = scan_step(s, i, line, num)->Ok_0;
            &&& i < next <= s.len()
            &&& next_line == line + newlines(s.subrange(i, next))
            &&& t matches Some(tok) ==> {
                &&& i + tok.lexeme.len() <= s.len()
                &&& s.subrange(i, i + tok.lexeme.len()) == tok.lexeme
                &&& tok.line == line
            }
        }),
{
    let c = s[i];
    let (t, next, next_line) = scan_step(s, i, line, num)->Ok_0;
    if c == '"' {
        let e = run_end(s, i + 1, other_than('"'));
        lemma_run_end_bounds(s, i + 1, other_than('"'));
        let body = s.subrange(i + 1, e);
        assert(s.subrange(i, e + 1) =~= seq![c] + body + seq![s[e]]);
        lemma_newlines_concat(seq![c] + body, seq![s[e]]);
        lemma_newlines_concat(seq![c], body);
        lemma_newlines_single(c);
        lemma_newlines_single(s[e]);
        assert(next_line == line + newlines(s.subrange(i, next)));
    } else if is_digit(c) {
        lemma_run_end_bounds(s, i + 1, word_like(true));
        lemma_newlines_none(s.subrange(i, next));
        assert(next_line == line + newlines(s.subrange(i, next)));
    } else if is_letter(c) {
        lemma_run_end_bounds(s, i + 1, word_like(false));
        lemma_newlines_none(s.subrange(i, next));
        assert(next_line == line + newlines(s.subrange(i, next)));
    } else if c == '/' && peek(s, i) == '/' {
        lemma_run_end_bounds(s, i + 2, other_than('\n'));
        lemma_newlines_none(s.subrange(i, next));
        assert(next_line == line + newlines(s.subrange(i, next)));
    } else if next == i + 1 {
        assert(s.subrange(i, next) =~= seq![c]);
        lemma_newlines_single(c);
    } else {
        assert(s.subrange(i, next) =~= seq![c] + seq![s[i + 1]]);
        lemma_newlines_single(c);
        lemma_newlines_single(s[i + 1]);
        lemma_newlines_concat(seq![c], seq![s[i + 1]]);
    }
}

proof fn lemma_lines_from(s: Seq<char>, i: int, line: nat, num: spec_fn(Seq<char>) -> Result<u64, ParseFloatError>)
    requires
        0 <= i <= s.len(),
        line == newlines(s.subrange(0, i)),
    ensures
        scan_from(s, i, line, num) matches Ok(ts) ==> {
            let st = token_starts(s, i, line, num);
            &&& st.len() == ts.len()
            &&& forall|k: int|
                0 <= k < ts.len() ==> {
                    &&& i <= #[trigger] st[k]
                    &&& st[k] + ts[k].lexeme.len() <= s.len()
                    &&& s.subrange(st[k], st[k] + ts[k].lexeme.len()) == ts[k].lexeme
                    &&& ts[k].line == newlines(s.subrange(0, st[k]))
                }
        },
    decreases s.len() - i,
{
    if i < s.len() && scan_step(s, i, line, num) is Ok {
        let (t, next, next_line) = scan_step(s, i, line, num)->Ok_0;
        lemma_step_lines(s, i, line, num);
        assert(s.subrange(0, next) =~= s.subrange(0, i) + s.subrange(i, next));
        lemma_newlines_concat(s.subrange(0, i), s.subrange(i, next));
        lemma_lines_from(s, next, next_line, num);
        if let Ok(rest) = scan_from(s, next, next_line, num) {
            let st = token_starts(s, i, line, num);
            let ts = scan_from(s, i, line, num)->Ok_0;
            let st2 = token_starts(s, next, next_line, num);
            if t is Some {
                assert(st == seq![i] + st2);
                assert(ts == seq![t->0] + rest);
                assert forall|k: int| 1 <= k < ts.len() implies st[k] == st2[k - 1] && ts[k] == rest[k - 1] by {}
            } else {
                assert(st =~= st2);
                assert(ts =~= rest);
            }
        }
    }
}

/// Each token of a successful scan spans exactly its lexeme at the position
/// where it starts, and its line is the number of line breaks before that
/// position.
pub proof fn lemma_token_lines(s: Seq<char>, num: spec_fn(Seq<char>) -> Result<u64, ParseFloatError>)
    ensures
        scan(s, num) matches Ok(ts) ==> {
            let st = token_starts(s, 0, 0, num);
            &&& st.len() == ts.len()
            &&& forall|k: int|
                0 <= k < ts.len() ==> {
                    &&& 0 <= #[trigger] st[k]
                    &&& st[k] + ts[k].lexeme.len() <= s.len()
                    &&& s.subrange(st[k], st[k] + ts[k].lexeme.len()) == ts[k].lexeme
                    &&& ts[k].line == newlines(s.subrange(0, st[k]))
                }
        },
{
    assert(s.subrange(0, 0) =~= seq![]);
    lemma_lines_from(s, 0, 0, num);
}

pub open spec fn token_option_view(t: Option<Token>) -> Option<TokenModel> {
    match t {
        Some(t) => Some(t@),
        None => None,
    }
}

// ---------------------------------------------------------------------------
// Calls into std and itertools
// ---------------------------------------------------------------------------

/// The characters of `text` in order.
fn chars_of(text: &str) -> (r: Vec<char>)
    ensures
        r@ == text@,
{
    broadcast use vstd::string::group_string_axioms;

    let mut it = text.chars();
    let mut v: Vec<char> = Vec::new();
    loop
        invariant
            v@ + it.remaining() == text@,
            it.decrease() is Some,
        ensures
            v@ == text@,
        decreases it.decrease()->0,
    {
        match it.next() {
            Some(c) => {
                v.push(c);
            },
            None => {
                assert(v@ + it.remaining() =~= v@);
                break;
            },
        }
    }
    v
}

/// Relies on `String`'s `FromIterator<&char>`: the string of the characters of `cs`.
#[verifier::external_body]
fn string_of(cs: &Vec<char>) -> (r: String)
    ensures
        r@ == cs@,
{
    cs.iter().collect()
}

/// Relies on itertools' `tuple_windows`: each element paired with the one
/// after it: one pair fewer than there are elements, none for no elements.
#[verifier::external_body]
fn pairs_of(cs: &Vec<char>) -> (r: Vec<(char, char)>)
    ensures
        r@.len() == if cs@.len() == 0 {
            0
        } else {
            cs@.len() - 1
        },
        forall|k: int| 0 <= k < r@.len() ==> #[trigger] r@[k] == (cs@[k], cs@[k + 1]),
{
    cs.iter().copied().tuple_windows().collect()
}

// ---------------------------------------------------------------------------
// The scanner
// ---------------------------------------------------------------------------

/// The characters of `cs` from `from` up to `to`, as a string.
fn text_of(cs: &Vec<char>, from: usize, to: usize) -> (r: String)
    requires
        from <= to <= cs@.len(),
    ensures
        r@ == cs@.subrange(from as int, to as int),
{
    let mut buf: Vec<char> = Vec::new();
    let mut j = from;
    while j < to
        invariant
            from <= j <= to <= cs@.len(),
            buf@ == cs@.subrange(from as int, j as int),
        decreases to - j,
    {
        buf.push(cs[j]);
        proof {
            assert(buf@ =~= cs@.subrange(from as int, j + 1));
        }
        j += 1;
    }
    string_of(&buf)
}

fn is_digit_char(c: char) -> (r: bool)
    ensures
        r == is_digit(c),
{
    '0' <= c && c <= '9'
}

fn is_letter_char(c: char) -> (r: bool)
    ensures
        r == is_letter(c),
{
    ('a' <= c && c <= 'z') || ('A' <= c && c <= 'Z')
}

/// The end of the run of characters other than `stop` that starts at `from`.
fn find_char(cs: &Vec<char>, from: usize, stop: char) -> (e: usize)
    requires
        from <= cs@.len(),
    ensures
        e == run_end(cs@, from as int, other_than(stop)),
        from <= e <= cs@.len(),
{
    let mut j = from;
    while j < cs.len() && cs[j] != stop
        invariant
            from <= j <= cs@.len(),
            run_end(cs@, from as int, other_than(stop)) == run_end(cs@, j as int, other_than(stop)),
        decreases cs@.len() - j,
    {
        j += 1;
    }
    j
}

/// Relies on `char::is_alphanumeric`: whether `c` is alphabetic or numeric.
#[verifier::external_body]
fn is_alphanumeric_char(c: char) -> (r: bool)
    ensures
        r == alphanumeric(c),
{
    c.is_alphanumeric()
}

/// The end of the run of characters that continue a word (with `numeral`, a
/// numeral) after position `start`.
fn word_end(cs: &Vec<char>, start: usize, numeral: bool) -> (e: usize)
    requires
        start < cs@.len(),
    ensures
        e == run_end(cs@, start + 1, word_like(numeral)),
        start < e <= cs@.len(),
{
    let n = cs.len();
    let mut j = start + 1;
    while j < n && continues_word(cs[j], numeral)
        invariant
            n == cs@.len(),
            start < j <= n,
            run_end(cs@, start + 1, word_like(numeral)) == run_end(cs@, j as int, word_like(numeral)),
        decreases n - j,
    {
        j += 1;
    }
    j
}

/// Whether `c` continues a word (with `numeral`, a numeral).
fn continues_word(c: char, numeral: bool) -> (r: bool)
    ensures
        r == word_like(numeral)(c),
{
    if is_letter_char(c) || is_digit_char(c) {
        true
    } else if !numeral {
        false
    } else {
        c == '.' || (c > '\u{7f}' && is_alphanumeric_char(c))
    }
}

fn single_kind_of(c: char) -> (r: Option<TokenType>)
    ensures
        r == single_kind(c),
{
    match c {
        '(' => Some(TokenType::LeftParen),
        ')' => Some(TokenType::RightParen),
        '{' => Some(TokenType::LeftBrace),
        '}' => Some(TokenType::RightBrace),
        ',' => Some(TokenType::Comma),
        '.' => Some(TokenType::Dot),
        '-' => Some(TokenType::Minus),
        '+' => Some(TokenType::Plus),
        ';' => Some(TokenType::Semicolon),
        '*' => Some(TokenType::Star),
        _ => None,
    }
}

fn operator_kinds_of(c: char) -> (r: Option<(TokenType, TokenType)>)
    ensures
        r == operator_kinds(c),
{
    match c {
        '!' => Some((TokenType::Bang, TokenType::BangEqual)),
        '=' => Some((TokenType::Equal, TokenType::EqualEqual)),
        '<' => Some((TokenType::Less, TokenType::LessEqual)),
        '>' => Some((TokenType::Greater, TokenType::GreaterEqual)),
        _ => None,
    }
}

/// The number token for the numeral `numeral` on line `line`.
fn make_number<P: Fn(String) -> Result<u64, ParseFloatError>>(numeral: String, line: usize, read_number: &P) -> (r: Result<
    Token,
    LexingError,
>)
    requires
        reads_numbers(*read_number),
    ensures
        match number_reading(*read_number)(numeral@) {
            Ok(b) => r matches Ok(t) && t@ == TokenModel {
                token_type: TokenType::Number,
                lexeme: numeral@,
                literal: Some(ValueModel::Number(b)),
                line: line as nat,
            },
            Err(err) => r == Err::<Token, LexingError>(LexingError::InvalidDigit { line_num: line, err }),
        },
{
    let read = read_number(numeral.clone());
    proof {
        lemma_number_reading(*read_number, numeral, read);
    }
    match read {
        Ok(b) => Ok(Token::new(TokenType::Number, numeral, Some(LoxType::Number(b)), line)),
        Err(err) => Err(LexingError::InvalidDigit { line_num: line, err }),
    }
}

/// Scans the numeral that starts with the digit at `i`.
fn handle_number<P: Fn(String) -> Result<u64, ParseFloatError>>(cs: &Vec<char>, i: usize, line: usize, read_number: &P) -> (r:
    Result<(Token, usize), LexingError>)
    requires
        i < cs@.len(),
        reads_numbers(*read_number),
    ensures
        match r {
            Ok((t, e)) => number_token(cs@, i as int, line as nat, number_reading(*read_number))
                == Ok::<(TokenModel, int), LexingError>((t@, e as int)) && i < e <= cs@.len(),
            Err(err) => number_token(cs@, i as int, line as nat, number_reading(*read_number))
                == Err::<(TokenModel, int), LexingError>(err),
        },
{
    let e = word_end(cs, i, true);
    let numeral = text_of(cs, i, e);
    match make_number(numeral, line, read_number) {
        Ok(t) => Ok((t, e)),
        Err(err) => Err(err),
    }
}

/// The keyword or identifier token for the word `w` on line `line`.
fn make_ident_or_keyword(w: &Vec<char>, line: usize) -> (t: Token)
    ensures
        t@ == ident_or_keyword(w@, line as nat),
{
    match keyword(w) {
        Some(kind) => Token::new(kind, string_of(w), None, line),
        None => Token::new(TokenType::Identifier, string_of(w), Some(LoxType::Identifier(string_of(w))), line),
    }
}

/// Scans the word that starts with the letter at `i`.
fn handle_ident_or_keyword(cs: &Vec<char>, i: usize, line: usize) -> (r: (Token, usize))
    requires
        i < cs@.len(),
    ensures
        (r.0@, r.1 as int) == word_token(cs@, i as int, line as nat),
        i < r.1 <= cs@.len(),
{
    let e = word_end(cs, i, false);
    let mut w: Vec<char> = Vec::new();
    let mut j = i;
    while j < e
        invariant
            i <= j <= e <= cs@.len(),
            w@ == cs@.subrange(i as int, j as int),
        decreases e - j,
    {
        w.push(cs[j]);
        proof {
            assert(w@ =~= cs@.subrange(i as int, j + 1));
        }
        j += 1;
    }
    (make_ident_or_keyword(&w, line), e)
}

/// One step of the scanner: the token at `i` (if any), the position after
/// it and the line there.
fn scan_one<P: Fn(String) -> Result<u64, ParseFloatError>>(
    cs: &Vec<char>,
    c: char,
    d: char,
    i: usize,
    line: usize,
    read_number: &P,
) -> (r: Result<(Option<Token>, usize, usize), LexingError>)
    requires
        i < cs@.len(),
        c == cs@[i as int],
        d == peek(cs@, i as int),
        line <= i,
        reads_numbers(*read_number),
    ensures
        match r {
            Ok((t, next, next_line)) => {
                &&& scan_step(cs@, i as int, line as nat, number_reading(*read_number)) == Ok::<
                    (Option<TokenModel>, int, nat),
                    LexingError,
                >((token_option_view(t), next as int, next_line as nat))
                &&& i < next <= cs@.len()
                &&& next_line <= next
            },
            Err(e) => scan_step(cs@, i as int, line as nat, number_reading(*read_number)) == Err::<
                (Option<TokenModel>, int, nat),
                LexingError,
            >(e),
        },
{
    let ghost s = cs@;
    let n = cs.len();
    if let Some(kind) = single_kind_of(c) {
        return Ok((Some(Token::new(kind, text_of(cs, i, i + 1), None, line)), i + 1, line));
    }
    if let Some((alone, with_equal)) = operator_kinds_of(c) {
        if d == '=' {
            return Ok((Some(Token::new(with_equal, text_of(cs, i, i + 2), None, line)), i + 2, line));
        } else {
            return Ok((Some(Token::new(alone, text_of(cs, i, i + 1), None, line)), i + 1, line));
        }
    }
    if c == '/' {
        if d == '/' {
            let e = find_char(cs, i + 2, '\n');
            return Ok((None, e, line));
        } else {
            return Ok((Some(Token::new(TokenType::Slash, text_of(cs, i, i + 1), None, line)), i + 1, line));
        }
    }
    if c == ' ' || c == '\r' || c == '\t' {
        return Ok((None, i + 1, line));
    }
    if c == '\n' {
        return Ok((None, i + 1, line + 1));
    }
    if c == '"' {
        let mut j = i + 1;
        let mut count: usize = 0;
        while j < n && cs[j] != '"'
            invariant
                s == cs@,
                n == cs@.len(),
                i < n,
                i + 1 <= j <= n,
                run_end(s, i + 1, other_than('"')) == run_end(s, j as int, other_than('"')),
                count == newlines(s.subrange(i + 1, j as int)),
                count <= j - (i + 1),
            decreases n - j,
        {
            if cs[j] == '\n' {
                count += 1;
            }
            proof {
                assert(s.subrange(i + 1, j + 1).drop_last() =~= s.subrange(i + 1, j as int));
            }
            j += 1;
        }
        if j >= n {
            return Err(LexingError::UnexpectedEndStringLiteral { line_num: line });
        }
        let body = text_of(cs, i + 1, j);
        let lexeme = text_of(cs, i, j + 1);
        let tok = Token::new(TokenType::String_, lexeme, Some(LoxType::String_(body)), line);
        return Ok((Some(tok), j + 1, line + count));
    }
    if is_digit_char(c) {
        return match handle_number(cs, i, line, read_number) {
            Ok((tok, e)) => Ok((Some(tok), e, line)),
            Err(err) => Err(err),
        };
    }
    if is_letter_char(c) {
        let (tok, e) = handle_ident_or_keyword(cs, i, line);
        return Ok((Some(tok), e, line));
    }
    Err(LexingError::InvalidToken(c))
}

proof fn lemma_glue_step(done: Seq<TokenModel>, t: Seq<TokenModel>, r: Result<Seq<TokenModel>, LexingError>)
    ensures
        glue(done, glue(t, r)) == glue(done + t, r),
{
    if let Ok(rest) = r {
        assert(done + (t + rest) =~= (done + t) + rest);
    }
}

/// Scans source text into tokens, reading each numeral with `read_number`.
///
/// The result is exactly [`scan`] of the text's characters: the tokens in
/// order, or the first error met.
pub fn scan_tokens<P: Fn(String) -> Result<u64, ParseFloatError>>(text: &str, read_number: &P) -> (r: Result<
    Vec<Token>,
    LexingError,
>)
    requires
        reads_numbers(*read_number),
    ensures
        scan_result_view(r) == scan(text@, number_reading(*read_number)),
{
    let ghost s = text@;
    let ghost num = number_reading(*read_number);
    let chars = chars_of(text);
    let n = chars.len();
    let mut padded = chars.clone();
    padded.push('\0');
    proof {
        assert(padded@ =~= s.push('\0'));
    }
    let pairs = pairs_of(&padded);
    let mut tokens: Vec<Token> = Vec::new();
    let mut i: usize = 0;
    let mut line: usize = 0;
    proof {
        assert(tokens_view(tokens@) =~= seq![]);
        assert(seq![] + scan(s, num)->Ok_0 =~= scan(s, num)->Ok_0);
    }
    while i < n
        invariant
            s == text@,
            chars@ == s,
            n == s.len(),
            pairs@.len() == n,
            forall|k: int| 0 <= k < n ==> pairs@[k] == (s[k], peek(s, k)),
            i <= n,
            line <= i,
            reads_numbers(*read_number),
            num == number_reading(*read_number),
            scan(s, num) == glue(tokens_view(tokens@), scan_from(s, i as int, line as nat, num)),
        decreases n - i,
    {
        let (c, d) = pairs[i];
        match scan_one(&chars, c, d, i, line, read_number) {
            Ok((t, next, next_line)) => {
                let ghost before = tokens@;
                if let Some(tok) = t {
                    tokens.push(tok);
                }
                proof {
                    assert(tokens_view(tokens@) =~= tokens_view(before) + optional_token(
                        token_option_view(t),
                    ));
                    lemma_glue_step(
                        tokens_view(before),
                        optional_token(token_option_view(t)),
                        scan_from(s, next as int, next_line as nat, num),
                    );
                }
                i = next;
                line = next_line;
            },
            Err(e) => {
                assert(scan_from(s, i as int, line as nat, num) == Err::<Seq<TokenModel>, LexingError>(e));
                return Err(e);
            },
        }
    }
    proof {
        assert(tokens_view(tokens@) + seq![] =~= tokens_view(tokens@));
    }
    Ok(tokens)
}

} // verus!
