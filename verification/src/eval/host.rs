//! Evaluation of a tree with the arithmetic that a host brings.

use super::semantics::{eval_call, eval_node, eval_tree, Host};
use super::{check_binary, check_call, Eval, Operand};
use crate::ast::consts::Const;
use crate::ast::expr::{Expr, ExprView};
use crate::ast::function::{Function, FunctionKind};
use crate::ast::token::number::{Decimal, DecimalView};
use crate::ast::token::operator::Operator;
use crate::ast::tree::TreeNode;
use crate::maph_error::{Error, ErrorView};
use vstd::prelude::*;

verus! {

/// The arithmetic that a host brings: how it reads literals and constants,
/// what it finds a value to be, and how it applies operators and functions.
pub struct Arithmetic<L, C, O, B, F> {
    /// The value of a literal.
    pub literal: L,
    /// The value of a constant.
    pub constant: C,
    /// What a value is found to be.
    pub observe: O,
    /// The result of an operator on a left and a right operand.
    pub binary: B,
    /// The result of a function, with the base where it takes one, on an
    /// argument.
    pub call: F,
}

/// The view of the base of a call.
pub open spec fn base_view(base: Option<&Decimal>) -> Option<DecimalView> {
    match base {
        Some(b) => Some(b@),
        None => None,
    }
}

impl<L, C, O, B, F> Arithmetic<L, C, O, B, F> {
    /// Every function of the host can be called on every argument.
    pub open spec fn total<V>(&self) -> bool where
        L: Fn(&Decimal) -> V,
        C: Fn(Const) -> V,
        O: Fn(&V) -> Operand,
        B: Fn(Operator, V, V) -> V,
        F: Fn(FunctionKind, Option<&Decimal>, V) -> V,
     {
        &&& forall|d: &Decimal| call_requires(self.literal, (d,))
        &&& forall|c: Const| call_requires(self.constant, (c,))
        &&& forall|v: &V| call_requires(self.observe, (v,))
        &&& forall|op: Operator, l: V, r: V| call_requires(self.binary, (op, l, r))
        &&& forall|kind: FunctionKind, base: Option<&Decimal>, x: V|
            call_requires(self.call, (kind, base, x))
    }

    /// Every function of the host returns what the arithmetic `h` says.
    pub open spec fn computes<V>(&self, h: Host<V>) -> bool where
        L: Fn(&Decimal) -> V,
        C: Fn(Const) -> V,
        O: Fn(&V) -> Operand,
        B: Fn(Operator, V, V) -> V,
        F: Fn(FunctionKind, Option<&Decimal>, V) -> V,
     {
        &&& forall|d: &Decimal, v: V|
            call_ensures(self.literal, (d,), v) ==> v == (h.literal)(d@)
        &&& forall|c: Const, v: V| call_ensures(self.constant, (c,), v) ==> v == (h.constant)(c)
        &&& forall|v: &V, o: Operand| call_ensures(self.observe, (v,), o) ==> o == (h.observe)(*v)
        &&& forall|op: Operator, l: V, r: V, v: V|
            call_ensures(self.binary, (op, l, r), v) ==> v == (h.binary)(op, l, r)
        &&& forall|kind: FunctionKind, base: Option<&Decimal>, x: V, v: V|
            call_ensures(self.call, (kind, base, x), v) ==> v == (h.call)(
                kind,
                base_view(base),
                x,
            )
    }
}

/// The view of the result of an evaluation.
pub open spec fn value_view<V>(r: Result<(V, usize), Error>) -> Result<(V, usize), ErrorView> {
    match r {
        Ok(found) => Ok(found),
        Err(e) => Err(e@),
    }
}

impl Const {
    /// The value of the constant in the arithmetic of `host`, and the offset
    /// of the constant.
    pub fn eval_with<V, L, C, O, B, F>(&self, host: &Arithmetic<L, C, O, B, F>) -> (r: Result<
        (V, usize),
        Error,
    >) where
        L: Fn(&Decimal) -> V,
        C: Fn(Const) -> V,
        O: Fn(&V) -> Operand,
        B: Fn(Operator, V, V) -> V,
        F: Fn(FunctionKind, Option<&Decimal>, V) -> V,

        requires
            host.total::<V>(),
        ensures
            r is Ok,
            forall|h: Host<V>|
                host.computes(h) ==> value_view(r) == #[trigger] eval_tree(
                    ExprView::Const(*self),
                    h,
                ),
    {
        let v = (host.constant)(*self);
        Ok((v, self.span()))
    }
}

impl TreeNode {
    /// Evaluates the left operand, then the right one, then the operation,
    /// and stops at the first that fails.
    pub fn eval_with<V, L, C, O, B, F>(&self, host: &Arithmetic<L, C, O, B, F>) -> (r: Result<
        (V, usize),
        Error,
    >) where
        L: Fn(&Decimal) -> V,
        C: Fn(Const) -> V,
        O: Fn(&V) -> Operand,
        B: Fn(Operator, V, V) -> V,
        F: Fn(FunctionKind, Option<&Decimal>, V) -> V,

        requires
            host.total::<V>(),
        ensures
            forall|h: Host<V>| host.computes(h) ==> value_view(r) == #[trigger] eval_tree(self@, h),
        decreases self,
    {
        let left = self.l_expr.eval_with(host);
        let (l, l_span) = match left {
            Err(e) => {
                assert forall|h: Host<V>| host.computes(h) implies Err::<(V, usize), ErrorView>(e@)
                    == #[trigger] eval_tree(self@, h) by {
                    assert(value_view(left) == eval_tree(self.l_expr@, h));
                }
                return Err(e);
            },
            Ok(found) => found,
        };
        let right = self.r_expr.eval_with(host);
        let (r, r_span) = match right {
            Err(e) => {
                assert forall|h: Host<V>| host.computes(h) implies Err::<(V, usize), ErrorView>(e@)
                    == #[trigger] eval_tree(self@, h) by {
                    assert(value_view(left) == eval_tree(self.l_expr@, h));
                    assert(value_view(right) == eval_tree(self.r_expr@, h));
                }
                return Err(e);
            },
            Ok(found) => found,
        };
        let seen = (host.observe)(&r);
        let checked = check_binary(self.op, &seen, r_span);
        let result = match checked {
            Err(e) => Err(e),
            Ok(_) => {
                let v = (host.binary)(self.op, l, r);
                Ok((v, l_span))
            },
        };
        assert forall|h: Host<V>| host.computes(h) implies value_view(result)
            == #[trigger] eval_tree(self@, h) by {
            assert(value_view(left) == eval_tree(self.l_expr@, h));
            assert(value_view(right) == eval_tree(self.r_expr@, h));
            assert(seen == (h.observe)(r));
            assert(eval_tree(self@, h) == eval_node(
                eval_tree(self.l_expr@, h),
                self.op,
                eval_tree(self.r_expr@, h),
                h,
            ));
        }
        result
    }
}

impl Function {
    /// Evaluates the argument, then the function on it, and stops at the
    /// first that fails.
    pub fn eval_with<V, L, C, O, B, F>(&self, host: &Arithmetic<L, C, O, B, F>) -> (r: Result<
        (V, usize),
        Error,
    >) where
        L: Fn(&Decimal) -> V,
        C: Fn(Const) -> V,
        O: Fn(&V) -> Operand,
        B: Fn(Operator, V, V) -> V,
        F: Fn(FunctionKind, Option<&Decimal>, V) -> V,

        requires
            host.total::<V>(),
        ensures
            forall|h: Host<V>|
                host.computes(h) ==> value_view(r) == #[trigger] eval_tree(
                    ExprView::Function(self@.kind, self@.argument, self@.base, self@.span),
                    h,
                ),
        decreases self,
    {
        let ghost tree = ExprView::Function(self@.kind, self@.argument, self@.base, self@.span);
        let argument = self.argument().eval_with(host);
        let (x, _) = match argument {
            Err(e) => {
                assert forall|h: Host<V>| host.computes(h) implies Err::<(V, usize), ErrorView>(e@)
                    == #[trigger] eval_tree(tree, h) by {
                    assert(value_view(argument) == eval_tree(*self@.argument, h));
                }
                return Err(e);
            },
            Ok(found) => found,
        };
        let seen = (host.observe)(&x);
        let checked = check_call(self.kind(), &seen, self.span());
        let result = match checked {
            Err(e) => Err(e),
            Ok(_) => {
                let v = (host.call)(self.kind(), self.base(), x);
                Ok((v, self.span()))
            },
        };
        assert forall|h: Host<V>| host.computes(h) implies value_view(result)
            == #[trigger] eval_tree(tree, h) by {
            assert(value_view(argument) == eval_tree(*self@.argument, h));
            assert(seen == (h.observe)(x));
            assert(eval_tree(tree, h) == eval_call(
                self@.kind,
                eval_tree(*self@.argument, h),
                self@.base,
                self@.span,
                h,
            ));
        }
        result
    }
}

impl Expr {
    /// Evaluates the expression in the arithmetic of `host`: returns its
    /// value and the offset that the value carries, or the error of the
    /// first operation that fails.
    pub fn eval_with<V, L, C, O, B, F>(&self, host: &Arithmetic<L, C, O, B, F>) -> (r: Result<
        (V, usize),
        Error,
    >) where
        L: Fn(&Decimal) -> V,
        C: Fn(Const) -> V,
        O: Fn(&V) -> Operand,
        B: Fn(Operator, V, V) -> V,
        F: Fn(FunctionKind, Option<&Decimal>, V) -> V,

        requires
            host.total::<V>(),
        ensures
            forall|h: Host<V>| host.computes(h) ==> value_view(r) == #[trigger] eval_tree(self@, h),
        decreases self,
    {
        match self {
            Expr::Number(d, span) => {
                let v = (host.literal)(d);
                Ok((v, *span))
            },
            Expr::Const(c) => c.eval_with(host),
            Expr::Node(node) => node.eval_with(host),
            Expr::Function(f) => f.eval_with(host),
        }
    }
}

/// Evaluating a tree twice in one arithmetic gives the same: whatever two
/// evaluations return, a value or an error, the two results have the same
/// content.
pub proof fn lemma_evaluation_is_a_function<V>(
    e: ExprView,
    h: Host<V>,
    first: Result<(V, usize), Error>,
    second: Result<(V, usize), Error>,
)
    requires
        value_view(first) == eval_tree(e, h),
        value_view(second) == eval_tree(e, h),
    ensures
        value_view(first) == value_view(second),
        first is Ok ==> second is Ok && first->Ok_0 == second->Ok_0,
{
}

/// An expression together with the arithmetic in which it is evaluated.
pub struct Evaluation<'a, V, L, C, O, B, F> {
    pub expr: &'a Expr,
    pub host: &'a Arithmetic<L, C, O, B, F>,
    /// Names the type of the values.
    pub value: core::marker::PhantomData<V>,
}

impl<'a, V, L, C, O, B, F> Evaluation<'a, V, L, C, O, B, F> {
    /// Pairs an expression with the arithmetic in which to evaluate it.
    pub fn new(expr: &'a Expr, host: &'a Arithmetic<L, C, O, B, F>) -> (r: Self)
        ensures
            r.expr == expr,
            r.host == host,
    {
        Evaluation { expr, host, value: core::marker::PhantomData }
    }
}

impl<'a, V, L, C, O, B, F> Eval for Evaluation<'a, V, L, C, O, B, F> where
    L: Fn(&Decimal) -> V,
    C: Fn(Const) -> V,
    O: Fn(&V) -> Operand,
    B: Fn(Operator, V, V) -> V,
    F: Fn(FunctionKind, Option<&Decimal>, V) -> V,
 {
    type Output = (V, usize);

    type Err = Error;

    open spec fn ready(&self) -> bool {
        self.host.total::<V>()
    }

    /// The value of the expression and the offset it carries, or the error
    /// of the first operation that fails.
    fn eval(&self) -> (r: Result<(V, usize), Error>)
        ensures
            forall|h: Host<V>|
                self.host.computes(h) ==> value_view(r) == #[trigger] eval_tree(self.expr@, h),
    {
        self.expr.eval_with(self.host)
    }
}

} // verus!
