use vstd::prelude::*;

use crate::location::{location_text, Location, LocationView};

verus! {

/// Why a word is not a token.
#[derive(Debug)]
pub enum LexingError {
    ParsingNumber(String),
    ParsingIdentifier(String),
    Syntax(String),
    RegisterIndex(String),
    UnexpectedEOF,
    NoMatch,
}

/// A lexing failure as plain values.
pub enum LexErrorView {
    ParsingNumber(Seq<char>),
    ParsingIdentifier(Seq<char>),
    Syntax(Seq<char>),
    RegisterIndex(Seq<char>),
    UnexpectedEOF,
    NoMatch,
}

impl View for LexingError {
    type V = LexErrorView;

    open spec fn view(&self) -> LexErrorView {
        match self {
            LexingError::ParsingNumber(s) => LexErrorView::ParsingNumber(s@),
            LexingError::ParsingIdentifier(s) => LexErrorView::ParsingIdentifier(s@),
            LexingError::Syntax(s) => LexErrorView::Syntax(s@),
            LexingError::RegisterIndex(s) => LexErrorView::RegisterIndex(s@),
            LexingError::UnexpectedEOF => LexErrorView::UnexpectedEOF,
            LexingError::NoMatch => LexErrorView::NoMatch,
        }
    }
}

/// The message that reports a lexing failure: the offending word with a
/// caret under it, then the kind of failure.
pub open spec fn lexing_message(e: LexErrorView) -> Seq<char> {
    match e {
        LexErrorView::ParsingNumber(s) => "\t"@ + s + "\n\t^\n"@ + "ParsingNumberError: not a number"@,
        LexErrorView::ParsingIdentifier(s) => "\t"@ + s + "\n\t^\n"@ + "ParsingIdentifierError: invalid identifier"@,
        LexErrorView::Syntax(s) => "\t"@ + s + "\n\t^\n"@ + "SyntaxError: invalid syntax"@,
        LexErrorView::RegisterIndex(s) => "\t"@ + s + "\n\t^\n"@ + "RegisterIndexError: invalid register index"@,
        LexErrorView::UnexpectedEOF => "UnexpectedEOFError: unexpected end of file"@,
        LexErrorView::NoMatch => "NoMatchError: found no match"@,
    }
}

fn framed(word: &String, kind: &str) -> (r: String)
    ensures
        r@ == "\t"@ + word@ + "\n\t^\n"@ + kind@,
{
    let mut r = String::from_str("\t");
    r.append(word.as_str());
    r.append("\n\t^\n");
    r.append(kind);
    r
}

impl LexingError {
    /// The message that reports this failure.
    pub fn message(&self) -> (r: String)
        ensures
            r@ == lexing_message(self@),
    {
        let r = match self {
            LexingError::ParsingNumber(s) => framed(s, "ParsingNumberError: not a number"),
            LexingError::ParsingIdentifier(s) => framed(s, "ParsingIdentifierError: invalid identifier"),
            LexingError::Syntax(s) => framed(s, "SyntaxError: invalid syntax"),
            LexingError::RegisterIndex(s) => framed(s, "RegisterIndexError: invalid register index"),
            LexingError::UnexpectedEOF => String::from_str("UnexpectedEOFError: unexpected end of file"),
            LexingError::NoMatch => String::from_str("NoMatchError: found no match"),
        };
        assert(r@ =~= lexing_message(self@));
        r
    }
}

/// A lexing failure and where it happened.
#[derive(Debug)]
pub struct LocatedError {
    pub loc: Location,
    pub error: LexingError,
}

impl View for LocatedError {
    type V = (LocationView, LexErrorView);

    open spec fn view(&self) -> (LocationView, LexErrorView) {
        (self.loc@, self.error@)
    }
}

impl LocatedError {
    pub fn new(loc: Location, error: LexingError) -> (r: LocatedError)
        ensures
            r.loc == loc,
            r.error == error,
    {
        LocatedError { loc, error }
    }

    /// The message that reports this failure: what, then where.
    pub fn message(&self) -> (r: String)
        ensures
            r@ == lexing_message(self.error@) + " at "@ + location_text(self.loc@),
    {
        let mut r = self.error.message();
        r.append(" at ");
        let place = self.loc.describe();
        r.append(place.as_str());
        r
    }
}

} // verus!
