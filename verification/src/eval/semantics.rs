//! What evaluation means, whatever the arithmetic of the host.

use super::{binary_failure, call_failure, span_of, Operand};
use crate::ast::consts::Const;
use crate::ast::expr::ExprView;
use crate::ast::function::FunctionKind;
use crate::ast::token::number::DecimalView;
use crate::ast::token::operator::Operator;
use crate::maph_error::{ErrorKindsView, ErrorView};
use vstd::prelude::*;

verus! {

/// The arithmetic of a host on values of type `V`.
#[verifier::reject_recursive_types(V)]
pub struct Host<V> {
    /// The value of a literal.
    pub literal: spec_fn(DecimalView) -> V,
    /// The value of a constant.
    pub constant: spec_fn(Const) -> V,
    /// What the host finds a value to be.
    pub observe: spec_fn(V) -> Operand,
    /// The result of an operator on a left and a right operand.
    pub binary: spec_fn(Operator, V, V) -> V,
    /// The result of a function, with the base where it takes one, on an
    /// argument.
    pub call: spec_fn(FunctionKind, Option<DecimalView>, V) -> V,
}

/// The value of a binary operation on the results of its operands: the
/// error of the left operand, else that of the right one, else that of the
/// operation on the right operand, else the result of the operator, which
/// carries the offset of the left operand.
pub open spec fn eval_node<V>(
    left: Result<(V, usize), ErrorView>,
    op: Operator,
    right: Result<(V, usize), ErrorView>,
    h: Host<V>,
) -> Result<(V, usize), ErrorView> {
    match left {
        Err(e) => Err(e),
        Ok((l, l_span)) => match right {
            Err(e) => Err(e),
            Ok((r, r_span)) => match binary_failure(op, (h.observe)(r), r_span) {
                Some(e) => Err(e),
                None => Ok(((h.binary)(op, l, r), l_span)),
            },
        },
    }
}

/// The value of a call written at `at` on the result of its argument: the
/// error of the argument, else that of the function on the argument, else
/// the result of the function, which carries the offset `at`.
pub open spec fn eval_call<V>(
    kind: FunctionKind,
    argument: Result<(V, usize), ErrorView>,
    base: Option<DecimalView>,
    at: usize,
    h: Host<V>,
) -> Result<(V, usize), ErrorView> {
    match argument {
        Err(e) => Err(e),
        Ok((x, _)) => match call_failure(kind, (h.observe)(x), at) {
            Some(e) => Err(e),
            None => Ok(((h.call)(kind, base, x), at)),
        },
    }
}

/// The value of `e` and the offset it carries, or the error of the first
/// operation that fails when the operands of every operation are evaluated
/// before it, the left one first.
pub open spec fn eval_tree<V>(e: ExprView, h: Host<V>) -> Result<(V, usize), ErrorView>
    decreases e,
{
    match e {
        ExprView::Number(d, span) => Ok(((h.literal)(d), span)),
        ExprView::Const(c) => Ok(((h.constant)(c), c.spec_span())),
        ExprView::Node(left, op, right) => eval_node(
            eval_tree(*left, h),
            op,
            eval_tree(*right, h),
            h,
        ),
        ExprView::Function(kind, argument, base, at) => eval_call(
            kind,
            eval_tree(*argument, h),
            base,
            at,
            h,
        ),
    }
}

/// The value of a tree carries the offset that `span_of` gives: that of
/// the leftmost operand of its binary operations.
pub proof fn lemma_value_carries_span<V>(e: ExprView, h: Host<V>)
    ensures
        eval_tree(e, h) is Ok ==> eval_tree(e, h)->Ok_0.1 == span_of(e),
    decreases e,
{
    match e {
        ExprView::Node(left, _, right) => {
            lemma_value_carries_span(*left, h);
            lemma_value_carries_span(*right, h);
        },
        _ => {},
    }
}

/// An operation whose left operand fails, fails with the error of the left
/// operand, whatever the right operand is.
pub proof fn lemma_left_failure_comes_first<V>(
    left: ExprView,
    op: Operator,
    right: ExprView,
    h: Host<V>,
)
    requires
        eval_tree(left, h) is Err,
    ensures
        eval_tree(ExprView::Node(Box::new(left), op, Box::new(right)), h) == Err::<
            (V, usize),
            ErrorView,
        >(eval_tree(left, h)->Err_0),
{
}

/// A division whose operands have values and whose divisor the host finds
/// to be zero fails, and the error points at the divisor.
pub proof fn lemma_division_by_zero<V>(left: ExprView, right: ExprView, h: Host<V>)
    requires
        eval_tree(left, h) is Ok,
        eval_tree(right, h) is Ok,
        (h.observe)(eval_tree(right, h)->Ok_0.0).zero,
    ensures
        eval_tree(ExprView::Node(Box::new(left), Operator::Div, Box::new(right)), h) == Err::<
            (V, usize),
            ErrorView,
        >(ErrorView { kind: ErrorKindsView::DivisionByZero, span: seq![span_of(right)] }),
        eval_tree(ExprView::Node(Box::new(left), Operator::FDiv, Box::new(right)), h) == Err::<
            (V, usize),
            ErrorView,
        >(ErrorView { kind: ErrorKindsView::ModuloByZero, span: seq![span_of(right)] }),
{
    lemma_value_carries_span(right, h);
}

/// A square root whose argument has a value that the host finds to be
/// negative fails, and the error points at the name of the function.
pub proof fn lemma_negative_square_root<V>(argument: ExprView, at: usize, h: Host<V>)
    requires
        eval_tree(argument, h) is Ok,
        (h.observe)(eval_tree(argument, h)->Ok_0.0).negative,
    ensures
        eval_tree(ExprView::Function(FunctionKind::Sqrt, Box::new(argument), None, at), h) == Err::<
            (V, usize),
            ErrorView,
        >(ErrorView { kind: ErrorKindsView::NegativeSqrt, span: seq![at] }),
{
}

} // verus!
