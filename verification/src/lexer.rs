use vstd::prelude::*;
use vstd::string::StrSliceExecFns;

use crate::error::Error;
use crate::token::{Kind, Token};

verus! {

/// True of the characters the scanner skips between tokens: the ASCII
/// whitespace characters (space, tab, line feed, form feed, carriage
/// return).
pub open spec fn is_ws_char(c: char) -> bool {
    c == ' ' || c == '\t' || c == '\n' || c == '\x0c' || c == '\r'
}

/// True of the ASCII decimal digits.
pub open spec fn is_digit_char(c: char) -> bool {
    48 <= c as u32 <= 57
}

/// The first position at or after `i` whose character is not whitespace
/// (the length of the line when only whitespace remains).
pub open spec fn spec_skip_ws(s: Seq<char>, i: int) -> int
    decreases s.len() - i,
{
    if 0 <= i < s.len() && is_ws_char(s[i]) {
        spec_skip_ws(s, i + 1)
    } else {
        i
    }
}

/// The first position at or after `i` whose character is not a digit.
pub open spec fn spec_digits_end(s: Seq<char>, i: int) -> int
    decreases s.len() - i,
{
    if 0 <= i < s.len() && is_digit_char(s[i]) {
        spec_digits_end(s, i + 1)
    } else {
        i
    }
}

/// What one scanning step from position `i` yields: a token, given by its
/// category and the half-open character range of its lexeme, or the
/// character that the scanner cannot classify together with its position.
pub enum ScanStep {
    Tok { kind: Kind, start: int, end: int },
    Fail { c: char, pos: int },
}

/// One scanning step: skip the maximal whitespace run, then classify the
/// character found there.  A digit opens a maximal digit run; each of the
/// six operator and parenthesis characters is a one-character token; the
/// end of the line is `Eof` with an empty lexeme; anything else fails.
pub open spec fn spec_next_token(s: Seq<char>, i: int) -> ScanStep {
    let j = spec_skip_ws(s, i);
    if !(0 <= j < s.len()) {
        ScanStep::Tok { kind: Kind::Eof, start: j, end: j }
    } else {
        let c = s[j];
        if is_digit_char(c) {
            ScanStep::Tok { kind: Kind::Integer, start: j, end: spec_digits_end(s, j) }
        } else if c == '+' {
            ScanStep::Tok { kind: Kind::Plus, start: j, end: j + 1 }
        } else if c == '-' {
            ScanStep::Tok { kind: Kind::Minus, start: j, end: j + 1 }
        } else if c == '*' {
            ScanStep::Tok { kind: Kind::Star, start: j, end: j + 1 }
        } else if c == '/' {
            ScanStep::Tok { kind: Kind::Slash, start: j, end: j + 1 }
        } else if c == '(' {
            ScanStep::Tok { kind: Kind::LParen, start: j, end: j + 1 }
        } else if c == ')' {
            ScanStep::Tok { kind: Kind::RParen, start: j, end: j + 1 }
        } else {
            ScanStep::Fail { c, pos: j }
        }
    }
}

/// Skipping whitespace never rewinds and never leaves the line.
pub proof fn lemma_skip_ws_bounds(s: Seq<char>, i: int)
    requires
        0 <= i <= s.len(),
    ensures
        i <= spec_skip_ws(s, i) <= s.len(),
    decreases s.len() - i,
{
    if i < s.len() && is_ws_char(s[i]) {
        lemma_skip_ws_bounds(s, i + 1);
    }
}

/// A digit run never rewinds, never leaves the line, holds digits only,
/// and is non-empty when it starts on a digit.
pub proof fn lemma_digits_end_bounds(s: Seq<char>, i: int)
    requires
        0 <= i <= s.len(),
    ensures
        i <= spec_digits_end(s, i) <= s.len(),
        forall|k: int| i <= k < spec_digits_end(s, i) ==> is_digit_char(s[k]),
        i < s.len() && is_digit_char(s[i]) ==> i + 1 <= spec_digits_end(s, i),
    decreases s.len() - i,
{
    if i < s.len() && is_digit_char(s[i]) {
        lemma_digits_end_bounds(s, i + 1);
    }
}

/// Whether a scanning step from a position within the line is sound: the
/// token's range sits between the start position and the end of the line,
/// every token but `Eof` is non-empty, `Eof` stands exactly at the end,
/// an `Integer` lexeme consists of digits, and a failure points at a
/// character of the line.
pub proof fn lemma_next_token_bounds(s: Seq<char>, i: int)
    requires
        0 <= i <= s.len(),
    ensures
        match spec_next_token(s, i) {
            ScanStep::Tok { kind, start, end } => {
                &&& i <= start <= end <= s.len()
                &&& (kind == Kind::Eof <==> start == end)
                &&& (kind == Kind::Eof ==> start == s.len())
                &&& (kind == Kind::Integer ==> forall|k: int|
                    start <= k < end ==> is_digit_char(s[k]))
            },
            ScanStep::Fail { c, pos } => i <= pos < s.len() && c == s[pos],
        },
{
    lemma_skip_ws_bounds(s, i);
    let j = spec_skip_ws(s, i);
    if 0 <= j < s.len() && is_digit_char(s[j]) {
        lemma_digits_end_bounds(s, j);
    }
}

/// Scanning is idempotent at the end of the line: from the position past
/// the last character it yields `Eof` with an empty lexeme and stays
/// there, so every further scan yields `Eof` again.
pub proof fn lemma_eof_idempotent(s: Seq<char>)
    ensures
        spec_next_token(s, s.len() as int) == (ScanStep::Tok {
            kind: Kind::Eof,
            start: s.len() as int,
            end: s.len() as int,
        }),
{
}

/// The scanner: the source line and the current read position, counted in
/// characters.  The position only ever moves forward.
#[derive(Debug)]
pub struct Lexer<'a> {
    pub source: &'a str,
    pub len: usize,
    pub pos: usize,
}

/// True of the whitespace characters the scanner skips.
fn is_ws(c: char) -> (r: bool)
    ensures
        r == is_ws_char(c),
{
    c == ' ' || c == '\t' || c == '\n' || c == '\x0c' || c == '\r'
}

/// True of the ASCII decimal digits.
fn is_digit(c: char) -> (r: bool)
    ensures
        r == is_digit_char(c),
{
    let u = c as u32;
    48 <= u && u <= 57
}

impl<'a> Lexer<'a> {
    /// The scanner is well formed when its cached length is the character
    /// count of the source and the position has not run past the end.
    pub open spec fn wf(self) -> bool {
        &&& self.len == self.source@.len()
        &&& self.pos <= self.len
    }

    pub fn new(source: &'a str) -> (lx: Lexer<'a>)
        ensures
            lx.wf(),
            lx.source == source,
            lx.pos == 0,
    {
        let len = source.unicode_len();
        Lexer { source, len, pos: 0 }
    }

    /// The current character-count position, for diagnostics.
    pub fn pos(&self) -> (p: usize)
        ensures
            p == self.pos,
    {
        self.pos
    }

    /// Consume exactly one character (none at the end of the line) and
    /// return the consumed substring.
    fn advance(&mut self) -> (r: &'a str)
        requires
            old(self).wf(),
        ensures
            final(self).wf(),
            final(self).source == old(self).source,
            final(self).len == old(self).len,
            old(self).pos < old(self).len ==> final(self).pos == old(self).pos + 1,
            old(self).pos >= old(self).len ==> final(self).pos == old(self).pos,
            r@ == old(self).source@.subrange(old(self).pos as int, final(self).pos as int),
    {
        let start = self.pos;
        if self.pos < self.len {
            self.pos = self.pos + 1;
        }
        self.source.substring_char(start, self.pos)
    }

    /// Consume the maximal run of whitespace at the current position.
    fn skip_whitespace(&mut self)
        requires
            old(self).wf(),
        ensures
            final(self).wf(),
            final(self).source == old(self).source,
            final(self).len == old(self).len,
            final(self).pos == spec_skip_ws(old(self).source@, old(self).pos as int),
    {
        while self.pos < self.len && is_ws(self.source.get_char(self.pos))
            invariant
                self.wf(),
                self.source == old(self).source,
                self.len == old(self).len,
                spec_skip_ws(self.source@, self.pos as int) == spec_skip_ws(
                    self.source@,
                    old(self).pos as int,
                ),
            decreases self.len - self.pos,
        {
            self.advance();
        }
    }

    /// Consume the maximal run of digits at the current position and
    /// return the consumed substring.
    fn integer(&mut self) -> (r: &'a str)
        requires
            old(self).wf(),
        ensures
            final(self).wf(),
            final(self).source == old(self).source,
            final(self).len == old(self).len,
            final(self).pos == spec_digits_end(old(self).source@, old(self).pos as int),
            r@ == old(self).source@.subrange(old(self).pos as int, final(self).pos as int),
    {
        let start = self.pos;
        while self.pos < self.len && is_digit(self.source.get_char(self.pos))
            invariant
                self.wf(),
                self.source == old(self).source,
                self.len == old(self).len,
                start <= self.pos,
                spec_digits_end(self.source@, self.pos as int) == spec_digits_end(
                    self.source@,
                    start as int,
                ),
            decreases self.len - self.pos,
        {
            self.advance();
        }
        self.source.substring_char(start, self.pos)
    }

    /// Scan the next token, exactly as `spec_next_token` describes: skip
    /// whitespace, then emit the token found there, or fail with
    /// `UnexpectedCharacter` on a character outside every recognized
    /// class.  At the end of the line this keeps returning `Eof`.
    pub fn next_token(&mut self) -> (r: Result<Token<'a>, Error<'a>>)
        requires
            old(self).wf(),
        ensures
            final(self).wf(),
            final(self).source == old(self).source,
            final(self).len == old(self).len,
            old(self).pos <= final(self).pos,
            match spec_next_token(old(self).source@, old(self).pos as int) {
                ScanStep::Tok { kind, start, end } => {
                    &&& r is Ok
                    &&& r->Ok_0.kind == kind
                    &&& r->Ok_0.source@ == old(self).source@.subrange(start, end)
                    &&& final(self).pos == end
                    &&& (kind == Kind::Eof ==> final(self).pos == final(self).len)
                },
                ScanStep::Fail { c, pos } => {
                    &&& r is Err
                    &&& r->Err_0@ == crate::error::ErrorView::UnexpectedCharacter {
                        character: c,
                        pos: pos,
                    }
                    &&& final(self).pos == pos
                },
            },
    {
        proof {
            lemma_next_token_bounds(old(self).source@, old(self).pos as int);
        }
        self.skip_whitespace();
        if self.pos >= self.len {
            let t = Token::new(Kind::Eof, "");
            proof {
                reveal_strlit("");
                assert(t.source@ =~= old(self).source@.subrange(
                    self.pos as int,
                    self.pos as int,
                ));
            }
            return Ok(t);
        }
        let c = self.source.get_char(self.pos);
        if is_digit(c) {
            Ok(Token::new(Kind::Integer, self.integer()))
        } else if c == '+' {
            Ok(Token::new(Kind::Plus, self.advance()))
        } else if c == '-' {
            Ok(Token::new(Kind::Minus, self.advance()))
        } else if c == '*' {
            Ok(Token::new(Kind::Star, self.advance()))
        } else if c == '/' {
            Ok(Token::new(Kind::Slash, self.advance()))
        } else if c == '(' {
            Ok(Token::new(Kind::LParen, self.advance()))
        } else if c == ')' {
            Ok(Token::new(Kind::RParen, self.advance()))
        } else {
            Err(Error::UnexpectedCharacter { character: c, pos: self.pos })
        }
    }
}

} // verus!
