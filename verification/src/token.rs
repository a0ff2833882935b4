use vstd::prelude::*;

verus! {

/// The closed set of lexical categories a scanned token can have.
#[derive(Debug, PartialEq, Eq, Clone, Copy, Structural)]
pub enum Kind {
    Integer,
    Plus,
    Minus,
    Star,
    Slash,
    LParen,
    RParen,
    Eof,
}

/// A classified fragment of the source line: a category together with the
/// exact substring it was matched from (empty for `Eof`).  Tokens borrow
/// their lexeme from the source line and never outlive it.
#[derive(Debug, Clone, Copy)]
pub struct Token<'a> {
    pub kind: Kind,
    pub source: &'a str,
}

/// The mathematical content of a token: its category and the characters of
/// its lexeme.
pub struct TokView {
    pub kind: Kind,
    pub lexeme: Seq<char>,
}

impl<'a> View for Token<'a> {
    type V = TokView;

    open spec fn view(&self) -> TokView {
        TokView { kind: self.kind, lexeme: self.source@ }
    }
}

impl<'a> Token<'a> {
    pub fn new(kind: Kind, source: &'a str) -> (t: Token<'a>)
        ensures
            t.kind == kind,
            t.source == source,
    {
        Token { kind, source }
    }
}

} // verus!
