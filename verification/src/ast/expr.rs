//! The expression tree.

use super::consts::Const;
use super::function::{function_view, Function, FunctionKind};
use super::token::number::{Decimal, DecimalView};
use super::token::operator::Operator;
use super::tree::TreeNode;
use vstd::prelude::*;

verus! {

/// An expression. Every node owns its operands.
#[derive(Debug, PartialEq)]
pub enum Expr {
    /// A binary operation.
    Node(Box<TreeNode>),
    /// A number literal and the offset of its token.
    Number(Decimal, usize),
    /// A named constant.
    Const(Const),
    /// A call of a function.
    Function(Box<Function>),
}

/// The mathematical content of an [`Expr`].
pub enum ExprView {
    Node(Box<ExprView>, Operator, Box<ExprView>),
    Number(DecimalView, usize),
    Const(Const),
    Function(FunctionKind, Box<ExprView>, Option<DecimalView>, usize),
}

/// The view of an expression.
pub open spec fn expr_view(e: Expr) -> ExprView
    decreases e,
{
    match e {
        Expr::Node(node) => ExprView::Node(
            Box::new(expr_view(node.l_expr)),
            node.op,
            Box::new(expr_view(node.r_expr)),
        ),
        Expr::Number(d, span) => ExprView::Number(d@, span),
        Expr::Const(c) => ExprView::Const(c),
        Expr::Function(f) => {
            let call = function_view(*f);
            ExprView::Function(call.kind, call.argument, call.base, call.span)
        },
    }
}

impl View for Expr {
    type V = ExprView;

    open spec fn view(&self) -> ExprView {
        expr_view(*self)
    }
}

impl View for TreeNode {
    type V = ExprView;

    open spec fn view(&self) -> ExprView {
        ExprView::Node(Box::new(self.l_expr@), self.op, Box::new(self.r_expr@))
    }
}

} // verus!
