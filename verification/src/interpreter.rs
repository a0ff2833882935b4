use vstd::prelude::*;

use crate::ast::{Ast, AstView};
use crate::token::{Kind, TokView};

verus! {

/// Whether a value fits in a signed 64-bit integer.
pub open spec fn in_i64(v: int) -> bool {
    i64::MIN <= v <= i64::MAX
}

/// Signed division truncating toward zero, as the machine's 64-bit
/// division performs it (the `/` of specifications rounds toward negative
/// infinity on negative operands instead).
pub open spec fn trunc_div(x: int, d: int) -> int {
    if x == 0 {
        0
    } else if x > 0 && d > 0 {
        x / d
    } else if x < 0 && d < 0 {
        (x * -1) / (d * -1)
    } else if x < 0 {
        ((x * -1) / d) * -1
    } else {
        (x / (d * -1)) * -1
    }
}

/// The value of an expression tree, in exact mathematical integers:
/// a literal is its value, unary minus negates, the four infix operators
/// compute left before right, and division truncates toward zero.
/// `None` when a division by zero occurs somewhere in the tree, or when
/// an operator token carries a kind that no operator position admits.
pub open spec fn math_eval(a: AstView) -> Option<int>
    decreases a,
{
    match a {
        AstView::Number { token, value } => Some(value as int),
        AstView::UnaryOperator { op, child } => {
            if op.kind == Kind::Minus {
                match math_eval(*child) {
                    Some(v) => Some(-v),
                    None => None,
                }
            } else {
                None
            }
        },
        AstView::BinaryOperator { left, op, right } => {
            match (math_eval(*left), math_eval(*right)) {
                (Some(l), Some(r)) => match op.kind {
                    Kind::Plus => Some(l + r),
                    Kind::Minus => Some(l - r),
                    Kind::Star => Some(l * r),
                    Kind::Slash => if r == 0 {
                        None
                    } else {
                        Some(trunc_div(l, r))
                    },
                    _ => None,
                },
                _ => None,
            }
        },
    }
}

/// Whether evaluating the tree stays within the evaluator's means: every
/// subtree has a value (no division by zero, no ill-kinded operator
/// token) and every intermediate value fits in a signed 64-bit integer.
pub open spec fn eval_fits(a: AstView) -> bool
    decreases a,
{
    &&& match a {
        AstView::Number { .. } => true,
        AstView::UnaryOperator { op, child } => eval_fits(*child),
        AstView::BinaryOperator { left, op, right } => eval_fits(*left) && eval_fits(*right),
    }
    &&& math_eval(a) is Some
    &&& in_i64(math_eval(a)->Some_0)
}

/// Evaluate the tree with checked arithmetic: `Some` of the value exactly
/// when evaluation meets no division by zero, no ill-kinded operator
/// token and no value outside the signed 64-bit range, `None` otherwise.
/// Overflow is not silently wrapped, and division by zero is not coerced
/// into a number: both yield `None`.  The recursion follows the tree's
/// structure, so it terminates on every finite tree and its depth is
/// bounded by the tree's height.
pub fn try_interpret_node(ast: &Ast<'_>) -> (r: Option<i64>)
    ensures
        r is Some <==> eval_fits(ast@),
        r is Some ==> math_eval(ast@) == Some(r->Some_0 as int),
    decreases *ast,
{
    match ast {
        Ast::Number(_, value) => Some(*value),
        Ast::UnaryOperator(token, child) => match token.kind {
            Kind::Minus => match try_interpret_node(child) {
                Some(v) => (0i64).checked_sub(v),
                None => None,
            },
            _ => None,
        },
        Ast::BinaryOperator(left, token, right) => {
            let l = try_interpret_node(left);
            let r = try_interpret_node(right);
            match (l, r) {
                (Some(lv), Some(rv)) => match token.kind {
                    Kind::Plus => lv.checked_add(rv),
                    Kind::Minus => lv.checked_sub(rv),
                    Kind::Star => lv.checked_mul(rv),
                    Kind::Slash => lv.checked_div(rv),
                    _ => None,
                },
                _ => None,
            }
        },
    }
}

/// Recursively reduce a fully-formed tree to its value: a literal returns
/// its value, unary minus negates its operand, an infix operator computes
/// its left operand, then its right operand, then applies `+`, `-`, `*`
/// or truncating `/`.  The caller must know that evaluation meets no
/// division by zero and stays within the signed 64-bit range
/// (`try_interpret_node` is the total variant that checks instead).  The
/// recursion follows the tree's structure, so it terminates on every
/// finite tree and its depth is bounded by the tree's height.
pub fn interpret_node(ast: &Ast<'_>) -> (r: i64)
    requires
        eval_fits(ast@),
    ensures
        math_eval(ast@) == Some(r as int),
    decreases *ast,
{
    match ast {
        Ast::Number(_, value) => *value,
        Ast::UnaryOperator(token, child) => match token.kind {
            Kind::Minus => -interpret_node(child),
            _ => vstd::pervasive::unreached(),
        },
        Ast::BinaryOperator(left, token, right) => {
            let left_v = interpret_node(left);
            let right_v = interpret_node(right);
            match token.kind {
                Kind::Plus => left_v + right_v,
                Kind::Minus => left_v - right_v,
                Kind::Star => left_v * right_v,
                Kind::Slash => match left_v.checked_div(right_v) {
                    Some(v) => v,
                    None => vstd::pervasive::unreached(),
                },
                _ => vstd::pervasive::unreached(),
            }
        },
    }
}

/// Unary minus nests arbitrarily, and two nested applications cancel:
/// wherever a doubly negated subtree stands, it evaluates exactly as the
/// subtree under the two minus signs does.
pub proof fn lemma_double_negation(a: AstView, op1: TokView, op2: TokView)
    requires
        op1.kind == Kind::Minus,
        op2.kind == Kind::Minus,
    ensures
        math_eval(
            AstView::UnaryOperator {
                op: op1,
                child: Box::new(AstView::UnaryOperator { op: op2, child: Box::new(a) }),
            },
        ) == math_eval(a),
{
    let inner = AstView::UnaryOperator { op: op2, child: Box::new(a) };
    let outer = AstView::UnaryOperator { op: op1, child: Box::new(inner) };
    match math_eval(a) {
        Some(v) => {
            assert(math_eval(inner) == Some(-v));
            assert(math_eval(outer) == Some(-(-v)));
        },
        None => {
            assert(math_eval(inner) is None);
            assert(math_eval(outer) is None);
        },
    }
}

} // verus!
