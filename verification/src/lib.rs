//! A verified interpreter for single-line integer arithmetic expressions.
//!
//! The pipeline has three stages: a scanner that turns the source line into
//! tokens, a recursive-descent parser that builds an abstract syntax tree
//! according to the usual precedence grammar, and an evaluator that reduces
//! the tree to a signed 64-bit integer.  Each stage carries a contract that
//! pins its result to a mathematical description of the same stage, so the
//! whole pipeline is a pure function of the source text.

use vstd::prelude::*;

pub mod ast;
pub mod error;
pub mod interpreter;
pub mod lexer;
pub mod parser;
pub mod token;

use crate::error::{Error, ErrorView};
use crate::interpreter::{eval_fits, math_eval, try_interpret_node};
use crate::parser::{Parser, spec_parse};

verus! {

/// The end-to-end meaning of one source line: `Ok(Some(v))` when the line
/// parses and evaluates to `v`; `Ok(None)` when it parses but evaluation
/// meets a division by zero or a value outside the signed 64-bit range;
/// `Err` with the first error when scanning or parsing fails.
pub open spec fn spec_outcome(s: Seq<char>) -> Result<Option<i64>, ErrorView> {
    match spec_parse(s) {
        Ok(ast) => if eval_fits(ast) {
            Ok(Some((math_eval(ast)->Some_0) as i64))
        } else {
            Ok(None)
        },
        Err(e) => Err(e),
    }
}

/// Run the whole pipeline on one source line: scan and parse it, then
/// evaluate the tree, exactly as `spec_outcome` describes.
pub fn interpret_source<'a>(source: &'a str) -> (r: Result<Option<i64>, Error<'a>>)
    ensures
        match spec_outcome(source@) {
            Ok(v) => r is Ok && r->Ok_0 == v,
            Err(e) => r is Err && r->Err_0@ == e,
        },
{
    let mut parser = match Parser::new(source) {
        Ok(p) => p,
        Err(e) => {
            return Err(e);
        },
    };
    let node = match parser.parse() {
        Ok(n) => n,
        Err(e) => {
            return Err(e);
        },
    };
    Ok(try_interpret_node(&node))
}

/// Every line that parses, and whose evaluation meets no division by
/// zero and stays within 64 bits, is owed a value: the pipeline returns
/// exactly the mathematical value of the line's parse tree, with the
/// grammar's precedence and associativity and with `/` truncating toward
/// zero.
pub proof fn lemma_valid_lines_evaluate(s: Seq<char>)
    requires
        spec_parse(s) is Ok,
        eval_fits(spec_parse(s)->Ok_0),
    ensures
        spec_outcome(s) == Ok::<Option<i64>, ErrorView>(
            Some((math_eval(spec_parse(s)->Ok_0)->Some_0) as i64),
        ),
{
}

/// Interpretation carries no hidden state: the outcome is a pure function
/// of the source text alone, so scanning, parsing and evaluating the same
/// line a second time yields the identical result.
pub proof fn lemma_outcome_deterministic(s1: Seq<char>, s2: Seq<char>)
    requires
        s1 == s2,
    ensures
        spec_outcome(s1) == spec_outcome(s2),
{
}

} // verus!
