use vstd::prelude::*;

use crate::lexer::chars::{
    alphabetic, chars_of, is_alphabetic, is_numeric, numeric, parse_i64, parse_i64_text,
    parse_usize, parse_usize_text,
};
use crate::lexer::errors::{LexErrorView, LexingError};
use crate::location::{Location, LocationView};
use crate::text::same_text;
use vstd::string::StringSliceAdditionalSpecFns;

verus! {

/// Where a push takes its value from, or where a pop puts it.
#[derive(Debug, PartialEq, Eq, Clone, Copy)]
pub enum TargetType {
    Integer(i64),
    Register(usize),
    Memory,
}

/// The kind of a token.
#[derive(Debug, PartialEq, Eq)]
pub enum TokenType {
    Identifier(String),
    Push(TargetType),
    Pop(TargetType),
    Function,
    Inline,
    Dot,
    Plus,
    Minus,
    Multiply,
    Divide,
    Mod,
    Less,
    Greater,
    Equal,
    NotEqual,
    Mem,
    If,
    Else,
    While,
    Do,
    End,
}

/// A token and where it starts.
#[derive(Debug)]
pub struct Token {
    pub ttype: TokenType,
    pub loc: Location,
}

/// The kind of a token as plain values.
pub enum TokenKind {
    Identifier(Seq<char>),
    Push(TargetType),
    Pop(TargetType),
    Function,
    Inline,
    Dot,
    Plus,
    Minus,
    Multiply,
    Divide,
    Mod,
    Less,
    Greater,
    Equal,
    NotEqual,
    Mem,
    If,
    Else,
    While,
    Do,
    End,
}

impl View for TokenType {
    type V = TokenKind;

    open spec fn view(&self) -> TokenKind {
        match self {
            TokenType::Identifier(s) => TokenKind::Identifier(s@),
            TokenType::Push(t) => TokenKind::Push(*t),
            TokenType::Pop(t) => TokenKind::Pop(*t),
            TokenType::Function => TokenKind::Function,
            TokenType::Inline => TokenKind::Inline,
            TokenType::Dot => TokenKind::Dot,
            TokenType::Plus => TokenKind::Plus,
            TokenType::Minus => TokenKind::Minus,
            TokenType::Multiply => TokenKind::Multiply,
            TokenType::Divide => TokenKind::Divide,
            TokenType::Mod => TokenKind::Mod,
            TokenType::Less => TokenKind::Less,
            TokenType::Greater => TokenKind::Greater,
            TokenType::Equal => TokenKind::Equal,
            TokenType::NotEqual => TokenKind::NotEqual,
            TokenType::Mem => TokenKind::Mem,
            TokenType::If => TokenKind::If,
            TokenType::Else => TokenKind::Else,
            TokenType::While => TokenKind::While,
            TokenType::Do => TokenKind::Do,
            TokenType::End => TokenKind::End,
        }
    }
}

/// A token as plain values.
pub struct TokenView {
    pub kind: TokenKind,
    pub loc: LocationView,
}

impl View for Token {
    type V = TokenView;

    open spec fn view(&self) -> TokenView {
        TokenView { kind: self.ttype@, loc: self.loc@ }
    }
}

/// The token kind of a word made of fixed symbols or keywords.
pub open spec fn keyword_kind(w: Seq<char>) -> Option<TokenKind> {
    if w == "+"@ {
        Some(TokenKind::Plus)
    } else if w == "-"@ {
        Some(TokenKind::Minus)
    } else if w == "*"@ {
        Some(TokenKind::Multiply)
    } else if w == "/"@ {
        Some(TokenKind::Divide)
    } else if w == "%"@ {
        Some(TokenKind::Mod)
    } else if w == "."@ {
        Some(TokenKind::Dot)
    } else if w == "<"@ {
        Some(TokenKind::Less)
    } else if w == ">"@ {
        Some(TokenKind::Greater)
    } else if w == "="@ {
        Some(TokenKind::Equal)
    } else if w == "!="@ {
        Some(TokenKind::NotEqual)
    } else if w == "if"@ {
        Some(TokenKind::If)
    } else if w == "else"@ {
        Some(TokenKind::Else)
    } else if w == "end"@ {
        Some(TokenKind::End)
    } else if w == "while"@ {
        Some(TokenKind::While)
    } else if w == "do"@ {
        Some(TokenKind::Do)
    } else if w == "mem"@ {
        Some(TokenKind::Mem)
    } else if w == "fn"@ {
        Some(TokenKind::Function)
    } else if w == "inline"@ {
        Some(TokenKind::Inline)
    } else {
        None
    }
}

/// A register operand: `r` and an index.
pub open spec fn register_kind(digits: Seq<char>) -> Result<TargetType, LexErrorView> {
    match parse_usize(digits) {
        Some(r) => Ok(TargetType::Register(r)),
        None => Err(LexErrorView::RegisterIndex(digits)),
    }
}

/// A name: it starts with `_` or a letter, and a numeric first character or a
/// dot is refused.
pub open spec fn identifier_kind(w: Seq<char>) -> Result<TokenKind, LexErrorView> {
    if numeric(w[0]) || w[0] == '.' {
        Err(LexErrorView::ParsingIdentifier(w))
    } else {
        Ok(TokenKind::Identifier(w))
    }
}

/// What a word is: a symbol or keyword; `!` or `@` alone for a memory load
/// or store; `!` before an integer for a pushed literal; `!r` or `@r` before
/// an index for a register; an integer; a name; or a syntax error.
pub open spec fn word_kind(w: Seq<char>) -> Result<TokenKind, LexErrorView> {
    if keyword_kind(w) is Some {
        Ok(keyword_kind(w)->Some_0)
    } else if w == "!"@ {
        Ok(TokenKind::Push(TargetType::Memory))
    } else if w == "@"@ {
        Ok(TokenKind::Pop(TargetType::Memory))
    } else if w.len() > 1 && w[0] == '!' && parse_i64(w.drop_first()) is Some {
        Ok(TokenKind::Push(TargetType::Integer(parse_i64(w.drop_first())->Some_0)))
    } else if w.len() > 1 && w[0] == '!' && w[1] == 'r' {
        match register_kind(w.subrange(2, w.len() as int)) {
            Ok(t) => Ok(TokenKind::Push(t)),
            Err(e) => Err(e),
        }
    } else if w.len() > 1 && w[0] == '@' && w[1] == 'r' {
        match register_kind(w.subrange(2, w.len() as int)) {
            Ok(t) => Ok(TokenKind::Pop(t)),
            Err(e) => Err(e),
        }
    } else if parse_i64(w) is Some {
        Ok(TokenKind::Push(TargetType::Integer(parse_i64(w)->Some_0)))
    } else if w.len() > 0 && (w[0] == '_' || alphabetic(w[0])) {
        identifier_kind(w)
    } else {
        Err(LexErrorView::Syntax(w))
    }
}

fn keyword(word: &str) -> (r: Option<TokenType>)
    ensures
        match keyword_kind(word@) {
            Some(k) => r is Some && r->Some_0@ == k,
            None => r is None,
        },
{
    if same_text(word, "+") {
        Some(TokenType::Plus)
    } else if same_text(word, "-") {
        Some(TokenType::Minus)
    } else if same_text(word, "*") {
        Some(TokenType::Multiply)
    } else if same_text(word, "/") {
        Some(TokenType::Divide)
    } else if same_text(word, "%") {
        Some(TokenType::Mod)
    } else if same_text(word, ".") {
        Some(TokenType::Dot)
    } else if same_text(word, "<") {
        Some(TokenType::Less)
    } else if same_text(word, ">") {
        Some(TokenType::Greater)
    } else if same_text(word, "=") {
        Some(TokenType::Equal)
    } else if same_text(word, "!=") {
        Some(TokenType::NotEqual)
    } else if same_text(word, "if") {
        Some(TokenType::If)
    } else if same_text(word, "else") {
        Some(TokenType::Else)
    } else if same_text(word, "end") {
        Some(TokenType::End)
    } else if same_text(word, "while") {
        Some(TokenType::While)
    } else if same_text(word, "do") {
        Some(TokenType::Do)
    } else if same_text(word, "mem") {
        Some(TokenType::Mem)
    } else if same_text(word, "fn") {
        Some(TokenType::Function)
    } else if same_text(word, "inline") {
        Some(TokenType::Inline)
    } else {
        None
    }
}

/// An integer literal, or the failure to read one.
pub fn tokenize_number(number: &str) -> (r: Result<TargetType, LexingError>)
    ensures
        match parse_i64(number@) {
            Some(n) => r == Ok::<TargetType, LexingError>(TargetType::Integer(n)),
            None => r is Err && r->Err_0@ == LexErrorView::ParsingNumber(number@),
        },
{
    match parse_i64_text(number) {
        Some(n) => Ok(TargetType::Integer(n)),
        None => Err(LexingError::ParsingNumber(number.to_owned())),
    }
}

/// A register index, or the failure to read one.
pub fn tokenize_register(number: &str) -> (r: Result<TargetType, LexingError>)
    ensures
        match register_kind(number@) {
            Ok(t) => r == Ok::<TargetType, LexingError>(t),
            Err(e) => r is Err && r->Err_0@ == e,
        },
{
    match parse_usize_text(number) {
        Some(n) => Ok(TargetType::Register(n)),
        None => Err(LexingError::RegisterIndex(number.to_owned())),
    }
}

/// A name, or the failure to accept one.
pub fn tokenize_identifier(ident: &str) -> (r: Result<TokenType, LexingError>)
    requires
        ident@.len() > 0,
    ensures
        match identifier_kind(ident@) {
            Ok(k) => r is Ok && r->Ok_0@ == k,
            Err(e) => r is Err && r->Err_0@ == e,
        },
{
    let first = ident.get_char(0);
    if is_numeric(first) || first == '.' {
        return Err(LexingError::ParsingIdentifier(ident.to_owned()));
    }
    Ok(TokenType::Identifier(ident.to_owned()))
}

/// What `word` is, as `word_kind` says.
pub fn classify(word: &str) -> (r: Result<TokenType, LexingError>)
    ensures
        match word_kind(word@) {
            Ok(k) => r is Ok && r->Ok_0@ == k,
            Err(e) => r is Err && r->Err_0@ == e,
        },
{
    match keyword(word) {
        Some(t) => return Ok(t),
        None => {},
    }
    if same_text(word, "!") {
        return Ok(TokenType::Push(TargetType::Memory));
    }
    if same_text(word, "@") {
        return Ok(TokenType::Pop(TargetType::Memory));
    }
    let cs = chars_of(word);
    let n = cs.len();
    if n > 1 && cs[0] == '!' {
        let rest = word.substring_char(1, n);
        assert(rest@ =~= word@.drop_first());
        match parse_i64_text(rest) {
            Some(v) => return Ok(TokenType::Push(TargetType::Integer(v))),
            None => {},
        }
    }
    if n > 1 && cs[0] == '!' && cs[1] == 'r' {
        return match tokenize_register(word.substring_char(2, n)) {
            Ok(t) => Ok(TokenType::Push(t)),
            Err(e) => Err(e),
        };
    }
    if n > 1 && cs[0] == '@' && cs[1] == 'r' {
        return match tokenize_register(word.substring_char(2, n)) {
            Ok(t) => Ok(TokenType::Pop(t)),
            Err(e) => Err(e),
        };
    }
    match parse_i64_text(word) {
        Some(v) => return Ok(TokenType::Push(TargetType::Integer(v))),
        None => {},
    }
    if n > 0 && (cs[0] == '_' || is_alphabetic(cs[0])) {
        return tokenize_identifier(word);
    }
    Err(LexingError::Syntax(word.to_owned()))
}

impl std::str::FromStr for TokenType {
    type Err = LexingError;

    fn from_str(s: &str) -> Result<TokenType, LexingError> {
        classify(s)
    }
}

/// The token a word makes, and the word's length in bytes.
pub fn tokenize_word(word: &str) -> (r: Result<(TokenType, usize), LexingError>)
    ensures
        match word_kind(word@) {
            Ok(k) => r is Ok && r->Ok_0.0@ == k && r->Ok_0.1 == word.spec_bytes().len() as usize,
            Err(e) => r is Err && r->Err_0@ == e,
        },
{
    let ttype = match classify(word) {
        Ok(t) => t,
        Err(e) => return Err(e),
    };
    Ok((ttype, word.len()))
}

} // verus!
