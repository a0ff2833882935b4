use vstd::arithmetic::div_mod::{lemma_add_mod_noop, lemma_mul_mod_noop_left};
use vstd::prelude::*;
use vstd::slice::slice_to_vec;
use vstd::string::StrSliceExecFns;

use crate::ast::{Ast, AstView, ast_view};
use crate::error::{Error, ErrorView};
use crate::lexer::{
    Lexer, ScanStep, is_digit_char, lemma_next_token_bounds, spec_next_token,
};
use crate::token::{Kind, TokView, Token};

verus! {

// ---------------------------------------------------------------------------
// The numeric value of an integer literal.
// ---------------------------------------------------------------------------

/// The numeric value of a single decimal digit character.
pub open spec fn digit_val(c: char) -> int {
    c as u32 - 48
}

/// The value of a run of decimal digits, most significant first.
pub open spec fn digits_val(s: Seq<char>) -> int
    decreases s.len(),
{
    if s.len() == 0 {
        0
    } else {
        digits_val(s.drop_last()) * 10 + digit_val(s.last())
    }
}

/// Reduction of an unbounded integer into the signed 64-bit range by
/// wrapping (two's complement).
pub open spec fn wrap_to_i64(n: int) -> i64 {
    let m = n % 0x1_0000_0000_0000_0000;
    if m <= i64::MAX {
        m as i64
    } else {
        (m - 0x1_0000_0000_0000_0000) as i64
    }
}

/// The value an integer literal denotes: its digits read in decimal,
/// wrapped into the signed 64-bit range.  A literal whose value fits in
/// 64 bits — every literal a test or a session will plausibly contain —
/// denotes exactly itself; the wrapping only pins down what the very
/// largest literals mean, so that parsing is total.
pub open spec fn spec_lit_value(s: Seq<char>) -> i64 {
    wrap_to_i64(digits_val(s))
}

/// Read the decimal value of a run of digit characters, wrapping into the
/// signed 64-bit range exactly as `spec_lit_value` describes.
fn lit_value(digits: &str) -> (v: i64)
    requires
        forall|k: int| 0 <= k < digits@.len() ==> is_digit_char(#[trigger] digits@[k]),
    ensures
        v == spec_lit_value(digits@),
{
    let ghost m: int = 0x1_0000_0000_0000_0000;
    let n = digits.unicode_len();
    let mut acc: u64 = 0;
    let mut i: usize = 0;
    while i < n
        invariant
            n == digits@.len(),
            i <= n,
            forall|k: int| 0 <= k < digits@.len() ==> is_digit_char(#[trigger] digits@[k]),
            acc as int == digits_val(digits@.subrange(0, i as int)) % m,
            m == 0x1_0000_0000_0000_0000,
        decreases n - i,
    {
        let c = digits.get_char(i);
        let d = (c as u32) as u64 - 48;
        proof {
            let prefix = digits@.subrange(0, i as int);
            let prefix1 = digits@.subrange(0, i + 1);
            assert(prefix1.drop_last() =~= prefix);
            assert(prefix1.last() == digits@[i as int]);
            lemma_mul_mod_noop_left(digits_val(prefix), 10, m);
            lemma_add_mod_noop(digits_val(prefix) * 10, d as int, m);
        }
        acc = acc.wrapping_mul(10).wrapping_add(d);
        i = i + 1;
    }
    proof {
        assert(digits@.subrange(0, n as int) =~= digits@);
    }
    if acc <= 9223372036854775807u64 {
        acc as i64
    } else {
        -((u64::MAX - acc) as i64) - 1
    }
}

// ---------------------------------------------------------------------------
// The parser's mathematical state and its single advancing step.
// ---------------------------------------------------------------------------

/// The parser's state as the grammar sees it: the buffered lookahead
/// token and the scanner's position, which stands just past that token.
pub struct ScanState {
    pub tok: TokView,
    pub pos: int,
}

/// The states that actually arise from scanning: the position lies within
/// the line, `Eof` appears only at its very end, and an `Integer` token's
/// lexeme is a non-empty run of digits.
pub open spec fn wf_scan_state(s: Seq<char>, st: ScanState) -> bool {
    &&& 0 <= st.pos <= s.len()
    &&& (st.tok.kind == Kind::Eof ==> st.pos == s.len())
    &&& (st.tok.kind == Kind::Integer ==> st.tok.lexeme.len() > 0 && forall|k: int|
        0 <= k < st.tok.lexeme.len() ==> is_digit_char(#[trigger] st.tok.lexeme[k]))
}

/// Read the token at position `pos` and make it the new lookahead, or
/// propagate the scanner's failure.
pub open spec fn spec_advance(s: Seq<char>, pos: int) -> Result<ScanState, ErrorView> {
    match spec_next_token(s, pos) {
        ScanStep::Tok { kind, start, end } => Ok(
            ScanState { tok: TokView { kind, lexeme: s.subrange(start, end) }, pos: end },
        ),
        ScanStep::Fail { c, pos } => Err(ErrorView::UnexpectedCharacter { character: c, pos }),
    }
}

/// An upper bound on the parsing work left in state `st`: every accepted
/// token makes it strictly smaller, which is what terminates the
/// recursive descent.
pub open spec fn parse_measure(s: Seq<char>, st: ScanState) -> int {
    2 * (s.len() - st.pos) + if st.tok.kind == Kind::Eof {
        0int
    } else {
        1int
    }
}

/// Advancing from a well-formed state keeps the state well formed, and
/// strictly shrinks the measure unless the lookahead was already `Eof`,
/// in which case scanning yields `Eof` again, forever.
pub proof fn lemma_advance_wf(s: Seq<char>, st: ScanState)
    requires
        wf_scan_state(s, st),
    ensures
        match spec_advance(s, st.pos) {
            Ok(st2) => {
                &&& wf_scan_state(s, st2)
                &&& 0 <= parse_measure(s, st2)
                &&& (st.tok.kind != Kind::Eof ==> parse_measure(s, st2) < parse_measure(s, st))
                &&& (st.tok.kind == Kind::Eof ==> st2.tok.kind == Kind::Eof)
            },
            Err(e) => st.tok.kind != Kind::Eof,
        },
{
    lemma_next_token_bounds(s, st.pos);
    match spec_advance(s, st.pos) {
        Ok(st2) => {
            if let ScanStep::Tok { kind, start, end } = spec_next_token(s, st.pos) {
                if kind == Kind::Integer {
                    assert(forall|k: int|
                    0 <= k < st2.tok.lexeme.len() ==> is_digit_char(#[trigger] st2.tok.lexeme[k]))
                        by {
                        assert(forall|k: int|
                            0 <= k < end - start ==> s.subrange(start, end)[k] == s[start + k]);
                    };
                }
            }
        },
        Err(e) => {},
    }
}

// ---------------------------------------------------------------------------
// The grammar, one specification function per rule:
//
//     expr   := term ( (PLUS|MINUS) term )*
//     term   := factor ( (STAR|SLASH) factor )*
//     factor := MINUS factor | INTEGER | LPAREN expr RPAREN
//
// and `parse` accepts an `expr` followed by the end of the line.  Each
// function returns the subtree it built and the state it stopped in, or
// the first error met.  The binary rules fold left-to-right, so operators
// of equal precedence build a left-leaning tree.
//
// Each recursive call is guarded by a check that the measure shrank; the
// `arbitrary()` branches behind those guards are never reached from a
// well-formed state (`lemma_advance_wf`), and exist only to exhibit
// termination.
// ---------------------------------------------------------------------------

/// Consume the lookahead if its kind is in `expected`, otherwise report
/// it together with the full expected set.
pub open spec fn spec_eat(s: Seq<char>, st: ScanState, expected: Seq<Kind>) -> Result<
    ScanState,
    ErrorView,
> {
    if expected.contains(st.tok.kind) {
        spec_advance(s, st.pos)
    } else {
        Err(ErrorView::UnexpectedToken { current: st.tok, pos: st.pos, expected })
    }
}

/// `factor := MINUS factor | INTEGER | LPAREN expr RPAREN`
pub open spec fn spec_factor(s: Seq<char>, st: ScanState) -> Result<
    (AstView, ScanState),
    ErrorView,
>
    decreases parse_measure(s, st), 0int,
{
    if st.tok.kind == Kind::Minus {
        let op = st.tok;
        match spec_advance(s, st.pos) {
            Err(e) => Err(e),
            Ok(st1) => if 0 <= parse_measure(s, st1) < parse_measure(s, st) {
                match spec_factor(s, st1) {
                    Ok((child, st2)) => Ok(
                        (AstView::UnaryOperator { op, child: Box::new(child) }, st2),
                    ),
                    Err(e) => Err(e),
                }
            } else {
                arbitrary()
            },
        }
    } else if st.tok.kind == Kind::Integer {
        let tok = st.tok;
        match spec_advance(s, st.pos) {
            Err(e) => Err(e),
            Ok(st1) => Ok(
                (AstView::Number { token: tok, value: spec_lit_value(tok.lexeme) }, st1),
            ),
        }
    } else if st.tok.kind == Kind::LParen {
        match spec_advance(s, st.pos) {
            Err(e) => Err(e),
            Ok(st1) => if 0 <= parse_measure(s, st1) < parse_measure(s, st) {
                match spec_expr(s, st1) {
                    Ok((node, st2)) => match spec_eat(s, st2, seq![Kind::RParen]) {
                        Ok(st3) => Ok((node, st3)),
                        Err(e) => Err(e),
                    },
                    Err(e) => Err(e),
                }
            } else {
                arbitrary()
            },
        }
    } else {
        Err(
            ErrorView::UnexpectedToken {
                current: st.tok,
                pos: st.pos,
                expected: seq![Kind::Integer, Kind::Minus, Kind::LParen],
            },
        )
    }
}

/// The iterated part of `term`: as long as the lookahead is `*` or `/`,
/// fold another factor onto `left`.
pub open spec fn spec_term_tail(s: Seq<char>, left: AstView, st: ScanState) -> Result<
    (AstView, ScanState),
    ErrorView,
>
    decreases parse_measure(s, st), 1int,
{
    if st.tok.kind == Kind::Star || st.tok.kind == Kind::Slash {
        let op = st.tok;
        match spec_advance(s, st.pos) {
            Err(e) => Err(e),
            Ok(st1) => if 0 <= parse_measure(s, st1) < parse_measure(s, st) {
                match spec_factor(s, st1) {
                    Err(e) => Err(e),
                    Ok((right, st2)) => {
                        let node = AstView::BinaryOperator {
                            left: Box::new(left),
                            op,
                            right: Box::new(right),
                        };
                        if 0 <= parse_measure(s, st2) < parse_measure(s, st) {
                            spec_term_tail(s, node, st2)
                        } else {
                            arbitrary()
                        }
                    },
                }
            } else {
                arbitrary()
            },
        }
    } else {
        Ok((left, st))
    }
}

/// `term := factor ( (STAR|SLASH) factor )*`
pub open spec fn spec_term(s: Seq<char>, st: ScanState) -> Result<(AstView, ScanState), ErrorView>
    decreases parse_measure(s, st), 2int,
{
    match spec_factor(s, st) {
        Err(e) => Err(e),
        Ok((f, st1)) => if 0 <= parse_measure(s, st1) <= parse_measure(s, st) {
            spec_term_tail(s, f, st1)
        } else {
            arbitrary()
        },
    }
}

/// The iterated part of `expr`: as long as the lookahead is `+` or `-`,
/// fold another term onto `left`.
pub open spec fn spec_expr_tail(s: Seq<char>, left: AstView, st: ScanState) -> Result<
    (AstView, ScanState),
    ErrorView,
>
    decreases parse_measure(s, st), 3int,
{
    if st.tok.kind == Kind::Plus || st.tok.kind == Kind::Minus {
        let op = st.tok;
        match spec_advance(s, st.pos) {
            Err(e) => Err(e),
            Ok(st1) => if 0 <= parse_measure(s, st1) < parse_measure(s, st) {
                match spec_term(s, st1) {
                    Err(e) => Err(e),
                    Ok((right, st2)) => {
                        let node = AstView::BinaryOperator {
                            left: Box::new(left),
                            op,
                            right: Box::new(right),
                        };
                        if 0 <= parse_measure(s, st2) < parse_measure(s, st) {
                            spec_expr_tail(s, node, st2)
                        } else {
                            arbitrary()
                        }
                    },
                }
            } else {
                arbitrary()
            },
        }
    } else {
        Ok((left, st))
    }
}

/// `expr := term ( (PLUS|MINUS) term )*`
pub open spec fn spec_expr(s: Seq<char>, st: ScanState) -> Result<(AstView, ScanState), ErrorView>
    decreases parse_measure(s, st), 4int,
{
    match spec_term(s, st) {
        Err(e) => Err(e),
        Ok((t, st1)) => if 0 <= parse_measure(s, st1) <= parse_measure(s, st) {
            spec_expr_tail(s, t, st1)
        } else {
            arbitrary()
        },
    }
}

/// A whole line from state `st`: one `expr`, which must be followed by
/// the end of the line.
pub open spec fn spec_parse_from(s: Seq<char>, st: ScanState) -> Result<AstView, ErrorView> {
    match spec_expr(s, st) {
        Err(e) => Err(e),
        Ok((ast, st1)) => match spec_eat(s, st1, seq![Kind::Eof]) {
            Ok(_) => Ok(ast),
            Err(e) => Err(e),
        },
    }
}

/// Priming the parser: scan the first token of the line.
pub open spec fn spec_init(s: Seq<char>) -> Result<ScanState, ErrorView> {
    spec_advance(s, 0)
}

/// What parsing a whole line yields: the tree of the one expression the
/// line holds, or the first error the scanner or the parser meets.
pub open spec fn spec_parse(s: Seq<char>) -> Result<AstView, ErrorView> {
    match spec_init(s) {
        Ok(st) => spec_parse_from(s, st),
        Err(e) => Err(e),
    }
}

// ---------------------------------------------------------------------------
// The parser itself.
// ---------------------------------------------------------------------------

/// The parser: the scanner plus exactly one buffered lookahead token,
/// which is always the next token not yet incorporated into the tree.
pub struct Parser<'a> {
    pub lexer: Lexer<'a>,
    pub current_token: Token<'a>,
}

impl<'a> Parser<'a> {
    /// The parser's state as the grammar rules see it.
    pub open spec fn state(self) -> ScanState {
        ScanState { tok: self.current_token@, pos: self.lexer.pos as int }
    }

    /// The characters of the source line.
    pub open spec fn src(self) -> Seq<char> {
        self.lexer.source@
    }

    /// The scanner is sound and the state is one that scanning produces.
    pub open spec fn wf(self) -> bool {
        &&& self.lexer.wf()
        &&& wf_scan_state(self.src(), self.state())
    }

    /// Construct a parser over `source` and prime the one lookahead
    /// token, or propagate the scanner's failure on the first token.
    pub fn new(source: &'a str) -> (r: Result<Parser<'a>, Error<'a>>)
        ensures
            match spec_init(source@) {
                Ok(st) => {
                    &&& r is Ok
                    &&& r->Ok_0.wf()
                    &&& r->Ok_0.src() == source@
                    &&& r->Ok_0.state() == st
                },
                Err(e) => r is Err && r->Err_0@ == e,
            },
    {
        proof {
            // Any state with a non-`Eof` lookahead is well formed at
            // position zero, so the advance lemma describes the first scan.
            let st0 = ScanState { tok: TokView { kind: Kind::Plus, lexeme: Seq::empty() }, pos: 0 };
            lemma_advance_wf(source@, st0);
        }
        let mut lexer = Lexer::new(source);
        match lexer.next_token() {
            Ok(current_token) => Ok(Parser { lexer, current_token }),
            Err(e) => Err(e),
        }
    }

    /// Return the lookahead token and replace it with the scanner's next
    /// one; propagate the scanner's failure.
    fn advance(&mut self) -> (r: Result<Token<'a>, Error<'a>>)
        requires
            old(self).wf(),
        ensures
            final(self).wf(),
            final(self).src() == old(self).src(),
            match spec_advance(old(self).src(), old(self).state().pos) {
                Ok(st1) => {
                    &&& r is Ok
                    &&& r->Ok_0 == old(self).current_token
                    &&& final(self).state() == st1
                },
                Err(e) => {
                    &&& r is Err
                    &&& r->Err_0@ == e
                    &&& final(self).current_token == old(self).current_token
                },
            },
    {
        proof {
            lemma_advance_wf(old(self).src(), old(self).state());
        }
        let token = self.current_token;
        match self.lexer.next_token() {
            Ok(t) => {
                self.current_token = t;
                Ok(token)
            },
            Err(e) => Err(e),
        }
    }

    /// True exactly when the lookahead token's kind is in `expected`; no
    /// side effect.
    fn try_match(&self, expected: &[Kind]) -> (r: bool)
        ensures
            r == expected@.contains(self.current_token@.kind),
    {
        let mut i: usize = 0;
        while i < expected.len()
            invariant
                i <= expected@.len(),
                forall|k: int| 0 <= k < i ==> expected@[k] != self.current_token@.kind,
            decreases expected@.len() - i,
        {
            if expected[i] == self.current_token.kind {
                return true;
            }
            i = i + 1;
        }
        false
    }

    /// Consume and return the lookahead token when its kind is the
    /// expected one; otherwise fail with `UnexpectedToken` and consume
    /// nothing: on a mismatch the parser is left exactly as it was.
    fn eat(&mut self, expected: Kind) -> (r: Result<Token<'a>, Error<'a>>)
        requires
            old(self).wf(),
        ensures
            final(self).wf(),
            final(self).src() == old(self).src(),
            old(self).current_token.kind != expected ==> *final(self) == *old(self),
            match spec_eat(old(self).src(), old(self).state(), seq![expected]) {
                Ok(st1) => {
                    &&& r is Ok
                    &&& r->Ok_0 == old(self).current_token
                    &&& final(self).state() == st1
                },
                Err(e) => r is Err && r->Err_0@ == e,
            },
    {
        let kinds = [expected];
        proof {
            assert(kinds@ =~= seq![expected]);
        }
        self.eat_alt(kinds.as_slice())
    }

    /// Consume and return the lookahead token when its kind is in
    /// `expected`; otherwise fail with `UnexpectedToken` carrying the
    /// current token, the scanner's position and the whole expected set,
    /// and consume nothing: on a mismatch the parser is left exactly as
    /// it was.
    fn eat_alt(&mut self, expected: &[Kind]) -> (r: Result<Token<'a>, Error<'a>>)
        requires
            old(self).wf(),
        ensures
            final(self).wf(),
            final(self).src() == old(self).src(),
            !expected@.contains(old(self).current_token@.kind) ==> *final(self) == *old(self),
            match spec_eat(old(self).src(), old(self).state(), expected@) {
                Ok(st1) => {
                    &&& r is Ok
                    &&& r->Ok_0 == old(self).current_token
                    &&& final(self).state() == st1
                },
                Err(e) => r is Err && r->Err_0@ == e,
            },
    {
        if self.try_match(expected) {
            self.advance()
        } else {
            Err(
                Error::UnexpectedToken {
                    current: self.current_token,
                    pos: self.lexer.pos(),
                    expected: slice_to_vec(expected),
                },
            )
        }
    }

    /// `factor := MINUS factor | INTEGER | LPAREN expr RPAREN`
    ///
    /// Unary minus is right-recursive, so it nests arbitrarily and binds
    /// tighter than any infix operator.
    fn factor(&mut self) -> (r: Result<Ast<'a>, Error<'a>>)
        requires
            old(self).wf(),
        ensures
            final(self).wf(),
            final(self).src() == old(self).src(),
            r is Ok ==> 0 <= parse_measure(old(self).src(), final(self).state())
                < parse_measure(old(self).src(), old(self).state()),
            match spec_factor(old(self).src(), old(self).state()) {
                Ok((ast, st)) => r is Ok && ast_view(r->Ok_0) == ast && final(self).state() == st,
                Err(e) => r is Err && r->Err_0@ == e,
            },
        decreases parse_measure(self.src(), self.state()), 0int,
    {
        let ghost s = self.src();
        let ghost st0 = self.state();
        proof {
            lemma_advance_wf(s, st0);
        }
        if self.current_token.kind == Kind::Minus {
            let token = self.current_token;
            match self.advance() {
                Ok(_) => {},
                Err(e) => {
                    return Err(e);
                },
            }
            match self.factor() {
                Ok(child) => Ok(Ast::UnaryOperator(token, Box::new(child))),
                Err(e) => Err(e),
            }
        } else if self.current_token.kind == Kind::Integer {
            let token = self.current_token;
            match self.advance() {
                Ok(_) => {},
                Err(e) => {
                    return Err(e);
                },
            }
            let value = lit_value(token.source);
            Ok(Ast::Number(token, value))
        } else if self.current_token.kind == Kind::LParen {
            match self.advance() {
                Ok(_) => {},
                Err(e) => {
                    return Err(e);
                },
            }
            let result = match self.expr() {
                Ok(node) => node,
                Err(e) => {
                    return Err(e);
                },
            };
            proof {
                lemma_advance_wf(s, self.state());
            }
            match self.eat(Kind::RParen) {
                Ok(_) => Ok(result),
                Err(e) => Err(e),
            }
        } else {
            let mut expected: Vec<Kind> = Vec::new();
            expected.push(Kind::Integer);
            expected.push(Kind::Minus);
            expected.push(Kind::LParen);
            proof {
                assert(expected@ =~= seq![Kind::Integer, Kind::Minus, Kind::LParen]);
            }
            Err(
                Error::UnexpectedToken {
                    current: self.current_token,
                    pos: self.lexer.pos(),
                    expected,
                },
            )
        }
    }

    /// `term := factor ( (STAR|SLASH) factor )*`
    ///
    /// The loop folds left-to-right, so a run of `*` and `/` builds a
    /// left-leaning tree.
    fn term(&mut self) -> (r: Result<Ast<'a>, Error<'a>>)
        requires
            old(self).wf(),
        ensures
            final(self).wf(),
            final(self).src() == old(self).src(),
            r is Ok ==> 0 <= parse_measure(old(self).src(), final(self).state())
                < parse_measure(old(self).src(), old(self).state()),
            match spec_term(old(self).src(), old(self).state()) {
                Ok((ast, st)) => r is Ok && ast_view(r->Ok_0) == ast && final(self).state() == st,
                Err(e) => r is Err && r->Err_0@ == e,
            },
        decreases parse_measure(self.src(), self.state()), 2int,
    {
        let ghost s = self.src();
        let ghost st0 = self.state();
        let mut value = match self.factor() {
            Ok(node) => node,
            Err(e) => {
                return Err(e);
            },
        };
        let ops = [Kind::Star, Kind::Slash];
        while self.try_match(ops.as_slice())
            invariant
                self.wf(),
                self.src() == s,
                s == old(self).src(),
                st0 == old(self).state(),
                ops@ =~= seq![Kind::Star, Kind::Slash],
                0 <= parse_measure(s, self.state()) < parse_measure(s, st0),
                spec_term_tail(s, ast_view(value), self.state()) == spec_term(s, st0),
            decreases parse_measure(s, self.state()),
        {
            let ghost stl = self.state();
            proof {
                lemma_advance_wf(s, stl);
            }
            let op = match self.advance() {
                Ok(t) => t,
                Err(e) => {
                    return Err(e);
                },
            };
            let right = match self.factor() {
                Ok(node) => node,
                Err(e) => {
                    return Err(e);
                },
            };
            value = Ast::BinaryOperator(Box::new(value), op, Box::new(right));
        }
        Ok(value)
    }

    /// `expr := term ( (PLUS|MINUS) term )*`
    ///
    /// The loop folds left-to-right, so a run of `+` and `-` builds a
    /// left-leaning tree.
    fn expr(&mut self) -> (r: Result<Ast<'a>, Error<'a>>)
        requires
            old(self).wf(),
        ensures
            final(self).wf(),
            final(self).src() == old(self).src(),
            r is Ok ==> 0 <= parse_measure(old(self).src(), final(self).state())
                < parse_measure(old(self).src(), old(self).state()),
            match spec_expr(old(self).src(), old(self).state()) {
                Ok((ast, st)) => r is Ok && ast_view(r->Ok_0) == ast && final(self).state() == st,
                Err(e) => r is Err && r->Err_0@ == e,
            },
        decreases parse_measure(self.src(), self.state()), 4int,
    {
        let ghost s = self.src();
        let ghost st0 = self.state();
        let mut value = match self.term() {
            Ok(node) => node,
            Err(e) => {
                return Err(e);
            },
        };
        let ops = [Kind::Plus, Kind::Minus];
        while self.try_match(ops.as_slice())
            invariant
                self.wf(),
                self.src() == s,
                s == old(self).src(),
                st0 == old(self).state(),
                ops@ =~= seq![Kind::Plus, Kind::Minus],
                0 <= parse_measure(s, self.state()) < parse_measure(s, st0),
                spec_expr_tail(s, ast_view(value), self.state()) == spec_expr(s, st0),
            decreases parse_measure(s, self.state()),
        {
            let ghost stl = self.state();
            proof {
                lemma_advance_wf(s, stl);
            }
            let op = match self.advance() {
                Ok(t) => t,
                Err(e) => {
                    return Err(e);
                },
            };
            let right = match self.term() {
                Ok(node) => node,
                Err(e) => {
                    return Err(e);
                },
            };
            value = Ast::BinaryOperator(Box::new(value), op, Box::new(right));
        }
        Ok(value)
    }

    /// Parse the whole line: one expression that must use up the entire
    /// input, so the token standing after it must be `Eof`.
    pub fn parse(&mut self) -> (r: Result<Ast<'a>, Error<'a>>)
        requires
            old(self).wf(),
        ensures
            final(self).wf(),
            final(self).src() == old(self).src(),
            match spec_parse_from(old(self).src(), old(self).state()) {
                Ok(ast) => r is Ok && ast_view(r->Ok_0) == ast,
                Err(e) => r is Err && r->Err_0@ == e,
            },
    {
        let result = match self.expr() {
            Ok(node) => node,
            Err(e) => {
                return Err(e);
            },
        };
        match self.eat(Kind::Eof) {
            Ok(_) => Ok(result),
            Err(e) => Err(e),
        }
    }
}

} // verus!
