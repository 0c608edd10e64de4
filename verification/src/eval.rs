//! Evaluation. The library walks the tree, decides which offset each value
//! carries and when an operation must fail; the arithmetic on the values is
//! the host's, which brings it as a set of functions.

pub mod host;
pub mod semantics;

use crate::ast::expr::{Expr, ExprView};
use crate::ast::function::FunctionKind;
use crate::ast::token::operator::Operator;
use crate::maph_error::{Error, ErrorKinds, ErrorKindsView, ErrorView};
use crate::views::one;
use vstd::prelude::*;

verus! {

/// Things that can be evaluated.
pub trait Eval {
    type Output;

    type Err;

    /// What must hold of a thing for it to be evaluated.
    spec fn ready(&self) -> bool;

    /// The value of the thing, or the error with which its evaluation
    /// fails.
    fn eval(&self) -> Result<Self::Output, Self::Err>
        requires
            self.ready(),
    ;
}

/// What the host found a value to be.
#[derive(Clone, Copy, Debug, PartialEq, Eq, Structural)]
pub struct Operand {
    /// The value equals zero.
    pub zero: bool,
    /// The value is less than zero.
    pub negative: bool,
    /// The value is less than minus one.
    pub below_minus_one: bool,
    /// The value is greater than one.
    pub above_one: bool,
}

/// The offset that the value of `e` carries: its own for a number, a
/// constant and a call, that of the left operand for a binary operation.
pub open spec fn span_of(e: ExprView) -> usize
    decreases e,
{
    match e {
        ExprView::Node(left, _, _) => span_of(*left),
        ExprView::Number(_, span) => span,
        ExprView::Const(c) => c.spec_span(),
        ExprView::Function(_, _, _, span) => span,
    }
}

/// The error with which a binary operation fails on a right operand that
/// carries the offset `right`: a division and a floor division by zero.
pub open spec fn binary_failure(op: Operator, operand: Operand, right: usize) -> Option<ErrorView> {
    if op == Operator::Div && operand.zero {
        Some(ErrorView { kind: ErrorKindsView::DivisionByZero, span: seq![right] })
    } else if op == Operator::FDiv && operand.zero {
        Some(ErrorView { kind: ErrorKindsView::ModuloByZero, span: seq![right] })
    } else {
        None
    }
}

/// The error with which a call written at `span` fails on its argument: the
/// square root of a negative number, and the arc sine and the arc cosine of
/// a number outside the range from minus one to one.
pub open spec fn call_failure(kind: FunctionKind, operand: Operand, span: usize) -> Option<
    ErrorView,
> {
    if kind == FunctionKind::Sqrt && operand.negative {
        Some(ErrorView { kind: ErrorKindsView::NegativeSqrt, span: seq![span] })
    } else if (kind == FunctionKind::ArcSin || kind == FunctionKind::ArcCos) && (
    operand.below_minus_one || operand.above_one) {
        Some(ErrorView { kind: ErrorKindsView::NotInRange(-1i64, 1i64), span: seq![span] })
    } else {
        None
    }
}

/// The view of the answer of a check.
pub open spec fn failure_view(r: Result<(), Error>) -> Option<ErrorView> {
    match r {
        Ok(_) => None,
        Err(e) => Some(e@),
    }
}

/// Decides whether a binary operation may run on the right operand that
/// the host found, which carries the offset `right`.
pub fn check_binary(op: Operator, operand: &Operand, right: usize) -> (r: Result<(), Error>)
    ensures
        failure_view(r) == binary_failure(op, *operand, right),
{
    match op {
        Operator::Div => {
            if operand.zero {
                return Err(Error::new(ErrorKinds::DivisionByZero, one(right)));
            }
        },
        Operator::FDiv => {
            if operand.zero {
                return Err(Error::new(ErrorKinds::ModuloByZero, one(right)));
            }
        },
        _ => {},
    }
    Ok(())
}

/// Decides whether the function written at `span` may run on the argument
/// that the host found.
pub fn check_call(kind: FunctionKind, operand: &Operand, span: usize) -> (r: Result<(), Error>)
    ensures
        failure_view(r) == call_failure(kind, *operand, span),
{
    match kind {
        FunctionKind::Sqrt => {
            if operand.negative {
                return Err(Error::new(ErrorKinds::NegativeSqrt, one(span)));
            }
        },
        FunctionKind::ArcSin | FunctionKind::ArcCos => {
            if operand.below_minus_one || operand.above_one {
                return Err(Error::new(ErrorKinds::NotInRange(-1, 1), one(span)));
            }
        },
        _ => {},
    }
    Ok(())
}

impl Expr {
    /// The offset that the value of the expression carries.
    pub fn span(&self) -> (r: usize)
        ensures
            r == span_of(self@),
        decreases self,
    {
        match self {
            Expr::Node(node) => node.l_expr.span(),
            Expr::Number(_, span) => *span,
            Expr::Const(c) => c.span(),
            Expr::Function(f) => f.span(),
        }
    }
}

} // verus!
