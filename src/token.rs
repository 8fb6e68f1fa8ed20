//! Tokens, their kinds, and the table of reserved words.
use crate::types::{LoxType, ValueModel};
use vstd::prelude::*;

verus! {

/// The kind of a token.
#[derive(Clone, Copy, Debug, PartialEq, Eq, Structural)]
pub enum TokenType {
    // Single-character tokens.
    LeftParen,
    RightParen,
    LeftBrace,
    RightBrace,
    Comma,
    Dot,
    Minus,
    Plus,
    Semicolon,
    Slash,
    Star,
    // One or two character tokens.
    Bang,
    BangEqual,
    Equal,
    EqualEqual,
    Greater,
    GreaterEqual,
    Less,
    LessEqual,
    // Literals.
    Identifier,
    String_,
    Number,
    // Keywords.
    And,
    Class,
    Else,
    False,
    Fun,
    For,
    If,
    Nil,
    Or,
    Print,
    Return,
    Super,
    This,
    True,
    Var,
    While,
    Eof,
}

/// A classified fragment of source text: its kind, the exact characters it
/// spans, the value it denotes (for identifiers, strings and numbers) and the
/// 0-based line on which it starts.
#[derive(Debug, PartialEq)]
pub struct Token {
    pub token_type: TokenType,
    pub lexeme: String,
    pub literal: Option<LoxType>,
    pub line: usize,
}

/// The mathematical content of a [`Token`].
pub struct TokenModel {
    pub token_type: TokenType,
    pub lexeme: Seq<char>,
    pub literal: Option<ValueModel>,
    pub line: nat,
}

pub open spec fn literal_view(l: Option<LoxType>) -> Option<ValueModel> {
    match l {
        Some(v) => Some(v@),
        None => None,
    }
}

impl View for Token {
    type V = TokenModel;

    open spec fn view(&self) -> TokenModel {
        TokenModel {
            token_type: self.token_type,
            lexeme: self.lexeme@,
            literal: literal_view(self.literal),
            line: self.line as nat,
        }
    }
}

pub open spec fn tokens_view(v: Seq<Token>) -> Seq<TokenModel> {
    v.map_values(|t: Token| t@)
}

impl Token {
    pub fn new(token_type: TokenType, lexeme: String, literal: Option<LoxType>, line: usize) -> (t:
        Token)
        ensures
            t.token_type == token_type,
            t.lexeme == lexeme,
            t.literal == literal,
            t.line == line,
    {
        Token { token_type, lexeme, literal, line }
    }
}

impl Clone for Token {
    fn clone(&self) -> (r: Self)
        ensures
            r@ == self@,
    {
        let literal = match &self.literal {
            Some(v) => Some(v.clone()),
            None => None,
        };
        Token { token_type: self.token_type, lexeme: self.lexeme.clone(), literal, line: self.line }
    }
}

/// The reserved word that `w` spells, if any.
pub open spec fn keyword_kind(w: Seq<char>) -> Option<TokenType> {
    if w == "and"@ {
        Some(TokenType::And)
    } else if w == "class"@ {
        Some(TokenType::Class)
    } else if w == "else"@ {
        Some(TokenType::Else)
    } else if w == "false"@ {
        Some(TokenType::False)
    } else if w == "fun"@ {
        Some(TokenType::Fun)
    } else if w == "for"@ {
        Some(TokenType::For)
    } else if w == "if"@ {
        Some(TokenType::If)
    } else if w == "nil"@ {
        Some(TokenType::Nil)
    } else if w == "or"@ {
        Some(TokenType::Or)
    } else if w == "print"@ {
        Some(TokenType::Print)
    } else if w == "return"@ {
        Some(TokenType::Return)
    } else if w == "super"@ {
        Some(TokenType::Super)
    } else if w == "this"@ {
        Some(TokenType::This)
    } else if w == "true"@ {
        Some(TokenType::True)
    } else if w == "var"@ {
        Some(TokenType::Var)
    } else if w == "while"@ {
        Some(TokenType::While)
    } else {
        None
    }
}

/// Whether the characters of `w` are exactly those of `k`.
fn spells(w: &Vec<char>, k: &str) -> (r: bool)
    ensures
        r == (w@ == k@),
{
    let n = k.unicode_len();
    if w.len() != n {
        return false;
    }
    let mut i: usize = 0;
    while i < n
        invariant
            n == k@.len(),
            w@.len() == n,
            i <= n,
            forall|j: int| 0 <= j < i ==> w@[j] == k@[j],
        decreases n - i,
    {
        if w[i] != k.get_char(i) {
            return false;
        }
        i += 1;
    }
    assert(w@ =~= k@);
    true
}

/// Looks `w` up in the table of reserved words.
pub fn keyword(w: &Vec<char>) -> (r: Option<TokenType>)
    ensures
        r == keyword_kind(w@),
{
    if spells(w, "and") {
        Some(TokenType::And)
    } else if spells(w, "class") {
        Some(TokenType::Class)
    } else if spells(w, "else") {
        Some(TokenType::Else)
    } else if spells(w, "false") {
        Some(TokenType::False)
    } else if spells(w, "fun") {
        Some(TokenType::Fun)
    } else if spells(w, "for") {
        Some(TokenType::For)
    } else if spells(w, "if") {
        Some(TokenType::If)
    } else if spells(w, "nil") {
        Some(TokenType::Nil)
    } else if spells(w, "or") {
        Some(TokenType::Or)
    } else if spells(w, "print") {
        Some(TokenType::Print)
    } else if spells(w, "return") {
        Some(TokenType::Return)
    } else if spells(w, "super") {
        Some(TokenType::Super)
    } else if spells(w, "this") {
        Some(TokenType::This)
    } else if spells(w, "true") {
        Some(TokenType::True)
    } else if spells(w, "var") {
        Some(TokenType::Var)
    } else if spells(w, "while") {
        Some(TokenType::While)
    } else {
        None
    }
}

} // verus!
