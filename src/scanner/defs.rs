use vstd::prelude::*;

verus! {

/// The kinds of token of the arithmetic scanner.
#[derive(PartialEq, Eq, Structural, Debug, Clone, Copy)]
pub enum TokenName {
    PLUS,
    MINUS,
    STAR,
    SLASH,
    INTLIT,
    NOP,
}

/// A scanned token: its kind and, for a literal, its value.
#[derive(Debug)]
pub struct Token {
    pub token_name: TokenName,
    pub int_value: i32,
}

impl Token {
    /// A token of no kind with value 0.
    pub fn new() -> (r: Token)
        ensures
            r.token_name == TokenName::NOP,
            r.int_value == 0,
    {
        Token { token_name: TokenName::NOP, int_value: 0 }
    }
}

impl TokenName {
    /// How the kind is written.
    pub fn value(&self) -> (r: &'static str)
        ensures
            r@ == match *self {
                TokenName::PLUS => "+"@,
                TokenName::MINUS => "-"@,
                TokenName::STAR => "*"@,
                TokenName::SLASH => "/"@,
                TokenName::INTLIT => "intlit"@,
                TokenName::NOP => "nop"@,
            },
    {
        match self {
            TokenName::PLUS => "+",
            TokenName::MINUS => "-",
            TokenName::STAR => "*",
            TokenName::SLASH => "/",
            TokenName::INTLIT => "intlit",
            TokenName::NOP => "nop",
        }
    }
}

} // verus!
