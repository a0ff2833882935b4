use vstd::prelude::*;

use crate::token::{TokView, Token};

verus! {

/// The expression tree the parser builds and the evaluator consumes.  The
/// tree is acyclic and strictly owned top-down: every child belongs to
/// exactly one parent.
#[derive(Debug)]
pub enum Ast<'a> {
    /// An integer literal: the originating token and its parsed value.
    Number(Token<'a>, i64),
    /// A prefix operator applied to one operand: the operator token and
    /// the operand.  Only unary minus is produced by the parser.
    UnaryOperator(Token<'a>, Box<Ast<'a>>),
    /// An infix operator applied to two operands: the left operand, the
    /// operator token, and the right operand.
    BinaryOperator(Box<Ast<'a>>, Token<'a>, Box<Ast<'a>>),
}

/// The mathematical content of an expression tree.
pub enum AstView {
    Number { token: TokView, value: i64 },
    UnaryOperator { op: TokView, child: Box<AstView> },
    BinaryOperator { left: Box<AstView>, op: TokView, right: Box<AstView> },
}

/// The mathematical content of an expression tree, node by node.
pub open spec fn ast_view(a: Ast<'_>) -> AstView
    decreases a,
{
    match a {
        Ast::Number(t, v) => AstView::Number { token: t@, value: v },
        Ast::UnaryOperator(t, child) => AstView::UnaryOperator {
            op: t@,
            child: Box::new(ast_view(*child)),
        },
        Ast::BinaryOperator(l, t, r) => AstView::BinaryOperator {
            left: Box::new(ast_view(*l)),
            op: t@,
            right: Box::new(ast_view(*r)),
        },
    }
}

impl<'a> View for Ast<'a> {
    type V = AstView;

    open spec fn view(&self) -> AstView {
        ast_view(*self)
    }
}

} // verus!
