use vstd::prelude::*;
use vstd::string::{StrSliceExecFns, StringExecFns};

use crate::token::{Kind, TokView, Token};

verus! {

/// The closed error taxonomy shared by the scanner and the parser.  The
/// scanner only ever produces `UnexpectedCharacter`; the parser only ever
/// produces `UnexpectedToken`; nothing else constructs either.
#[derive(Debug)]
pub enum Error<'a> {
    /// The parser met `current` at a point where only the kinds listed in
    /// `expected` were acceptable.  `pos` is the scanner's character
    /// position at that moment, which is the position just past `current`.
    UnexpectedToken { current: Token<'a>, pos: usize, expected: Vec<Kind> },
    /// The scanner met a character that belongs to no recognized class.
    /// `pos` is the character-count position of that character.
    UnexpectedCharacter { character: char, pos: usize },
}

/// The mathematical content of an error value.
pub enum ErrorView {
    UnexpectedToken { current: TokView, pos: int, expected: Seq<Kind> },
    UnexpectedCharacter { character: char, pos: int },
}

impl<'a> View for Error<'a> {
    type V = ErrorView;

    open spec fn view(&self) -> ErrorView {
        match self {
            Error::UnexpectedToken { current, pos, expected } => ErrorView::UnexpectedToken {
                current: current@,
                pos: *pos as int,
                expected: expected@,
            },
            Error::UnexpectedCharacter { character, pos } => ErrorView::UnexpectedCharacter {
                character: *character,
                pos: *pos as int,
            },
        }
    }
}

// ---------------------------------------------------------------------------
// Rendering a diagnostic line.
// ---------------------------------------------------------------------------

/// The printed name of a token category.
pub open spec fn spec_kind_name(k: Kind) -> Seq<char> {
    match k {
        Kind::Integer => "Integer"@,
        Kind::Plus => "Plus"@,
        Kind::Minus => "Minus"@,
        Kind::Star => "Star"@,
        Kind::Slash => "Slash"@,
        Kind::LParen => "LParen"@,
        Kind::RParen => "RParen"@,
        Kind::Eof => "Eof"@,
    }
}

/// The digit character of a value below ten.
pub open spec fn spec_digit_str(d: int) -> Seq<char> {
    if d == 0 {
        "0"@
    } else if d == 1 {
        "1"@
    } else if d == 2 {
        "2"@
    } else if d == 3 {
        "3"@
    } else if d == 4 {
        "4"@
    } else if d == 5 {
        "5"@
    } else if d == 6 {
        "6"@
    } else if d == 7 {
        "7"@
    } else if d == 8 {
        "8"@
    } else {
        "9"@
    }
}

/// The decimal rendering of a non-negative value, most significant digit
/// first.
pub open spec fn spec_dec_digits(n: int) -> Seq<char>
    decreases n,
{
    if n < 10 {
        spec_digit_str(n)
    } else {
        spec_dec_digits(n / 10) + spec_digit_str(n % 10)
    }
}

/// The names of the categories in `ks` from index `i` on, separated by
/// a comma and a space, as a list's items are printed.
pub open spec fn spec_kind_list(ks: Seq<Kind>, i: int) -> Seq<char>
    decreases ks.len() - i,
{
    if !(0 <= i < ks.len()) {
        Seq::empty()
    } else if i == ks.len() - 1 {
        spec_kind_name(ks[i])
    } else {
        spec_kind_name(ks[i]) + ", "@ + spec_kind_list(ks, i + 1)
    }
}

/// How a token is described in a diagnostic: the end-of-input token is
/// rendered as "end of source" rather than as its empty lexeme.
pub open spec fn spec_token_desc(t: TokView) -> Seq<char> {
    if t.kind == Kind::Eof {
        "end of source"@
    } else {
        "'"@ + t.lexeme + "' (token type "@ + spec_kind_name(t.kind) + ")"@
    }
}

/// The diagnostic line an error value denotes.
pub open spec fn spec_message(e: ErrorView) -> Seq<char> {
    match e {
        ErrorView::UnexpectedToken { current, pos, expected } => "Unexpected "@
            + spec_token_desc(current) + " at position "@ + spec_dec_digits(pos)
            + " (expecting one of ["@ + spec_kind_list(expected, 0) + "])"@,
        ErrorView::UnexpectedCharacter { character, pos } => "Unexpected character '"@
            + seq![character] + "' at position "@ + spec_dec_digits(pos),
    }
}

/// The printed name of a token category.
fn kind_name(k: Kind) -> (r: &'static str)
    ensures
        r@ == spec_kind_name(k),
{
    match k {
        Kind::Integer => "Integer",
        Kind::Plus => "Plus",
        Kind::Minus => "Minus",
        Kind::Star => "Star",
        Kind::Slash => "Slash",
        Kind::LParen => "LParen",
        Kind::RParen => "RParen",
        Kind::Eof => "Eof",
    }
}

/// The digit character of a value below ten.
fn digit_str(d: u64) -> (r: &'static str)
    requires
        d < 10,
    ensures
        r@ == spec_digit_str(d as int),
{
    if d == 0 {
        "0"
    } else if d == 1 {
        "1"
    } else if d == 2 {
        "2"
    } else if d == 3 {
        "3"
    } else if d == 4 {
        "4"
    } else if d == 5 {
        "5"
    } else if d == 6 {
        "6"
    } else if d == 7 {
        "7"
    } else if d == 8 {
        "8"
    } else {
        "9"
    }
}

/// Render a value in decimal, most significant digit first.
fn dec_digits(n: u64) -> (r: String)
    ensures
        r@ == spec_dec_digits(n as int),
    decreases n,
{
    if n < 10 {
        digit_str(n).to_owned()
    } else {
        let mut s = dec_digits(n / 10);
        s.append(digit_str(n % 10));
        s
    }
}

/// Render the names in `ks` from index `i` on, comma-separated.
fn kind_list(ks: &Vec<Kind>, i: usize) -> (r: String)
    ensures
        r@ == spec_kind_list(ks@, i as int),
    decreases ks@.len() - i,
{
    if i >= ks.len() {
        String::new()
    } else if i == ks.len() - 1 {
        kind_name(ks[i]).to_owned()
    } else {
        let mut s = kind_name(ks[i]).to_owned();
        s.append(", ");
        let rest = kind_list(ks, i + 1);
        s.append(rest.as_str());
        s
    }
}

/// Relies on `String::from` for a `char`: the returned string holds that
/// one character and nothing else.
#[verifier::external_body]
fn char_to_string(c: char) -> (r: String)
    ensures
        r@ == seq![c],
{
    String::from(c)
}

impl<'a> Error<'a> {
    /// The human-readable diagnostic line for this error, of the form
    /// `Unexpected <token-description> at position <n> (expecting one of
    /// <kind-list>)` for `UnexpectedToken` and `Unexpected character '<c>'
    /// at position <n>` for `UnexpectedCharacter`.
    pub fn message(&self) -> (r: String)
        ensures
            r@ == spec_message(self@),
    {
        match self {
            Error::UnexpectedToken { current, pos, expected } => {
                let mut s = String::from_str("Unexpected ");
                if current.kind == Kind::Eof {
                    s.append("end of source");
                } else {
                    s.append("'");
                    s.append(current.source);
                    s.append("' (token type ");
                    s.append(kind_name(current.kind));
                    s.append(")");
                }
                s.append(" at position ");
                let p = dec_digits(*pos as u64);
                s.append(p.as_str());
                s.append(" (expecting one of [");
                let l = kind_list(expected, 0);
                s.append(l.as_str());
                s.append("])");
                proof {
                    assert(s@ =~= spec_message(self@));
                }
                s
            },
            Error::UnexpectedCharacter { character, pos } => {
                let mut s = String::from_str("Unexpected character '");
                let cs = char_to_string(*character);
                s.append(cs.as_str());
                s.append("' at position ");
                let p = dec_digits(*pos as u64);
                s.append(p.as_str());
                proof {
                    assert(s@ =~= spec_message(self@));
                }
                s
            },
        }
    }
}

} // verus!
