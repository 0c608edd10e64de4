//! The functions of one argument.

use super::expr::{expr_view, Expr, ExprView};
use super::token::number::{Decimal, DecimalView};
use crate::chars::same_text;
use vstd::prelude::*;

verus! {

/// Which function a call applies.
#[derive(Clone, Copy, Debug, PartialEq, Eq, Structural)]
pub enum FunctionKind {
    Sqrt,
    Cbrq,
    Abs,
    Sin,
    Cos,
    Tan,
    ArcSin,
    ArcCos,
    ArcTan,
    Ln,
    Log,
    LogBased,
    Round,
    Floor,
    Ceil,
    Trunc,
    Frac,
    Deg,
    Rad,
}

impl FunctionKind {
    /// The function that the identifier `name` names, letter for letter.
    pub open spec fn of_name(name: Seq<char>) -> Option<FunctionKind> {
        if name == "sqrt"@ {
            Some(FunctionKind::Sqrt)
        } else if name == "cbrq"@ {
            Some(FunctionKind::Cbrq)
        } else if name == "abs"@ {
            Some(FunctionKind::Abs)
        } else if name == "sin"@ {
            Some(FunctionKind::Sin)
        } else if name == "cos"@ {
            Some(FunctionKind::Cos)
        } else if name == "tan"@ {
            Some(FunctionKind::Tan)
        } else if name == "asin"@ {
            Some(FunctionKind::ArcSin)
        } else if name == "acos"@ {
            Some(FunctionKind::ArcCos)
        } else if name == "atan"@ {
            Some(FunctionKind::ArcTan)
        } else if name == "ln"@ {
            Some(FunctionKind::Ln)
        } else if name == "log"@ {
            Some(FunctionKind::Log)
        } else if name == "logb"@ {
            Some(FunctionKind::LogBased)
        } else if name == "round"@ {
            Some(FunctionKind::Round)
        } else if name == "floor"@ {
            Some(FunctionKind::Floor)
        } else if name == "ceil"@ {
            Some(FunctionKind::Ceil)
        } else if name == "trunc"@ {
            Some(FunctionKind::Trunc)
        } else if name == "frac"@ {
            Some(FunctionKind::Frac)
        } else if name == "deg"@ {
            Some(FunctionKind::Deg)
        } else if name == "rad"@ {
            Some(FunctionKind::Rad)
        } else {
            None
        }
    }

    /// Reads a function from its name.
    pub fn from_name(name: &str) -> (r: Option<FunctionKind>)
        ensures
            r == FunctionKind::of_name(name@),
    {
        if same_text(name, "sqrt") {
            Some(FunctionKind::Sqrt)
        } else if same_text(name, "cbrq") {
            Some(FunctionKind::Cbrq)
        } else if same_text(name, "abs") {
            Some(FunctionKind::Abs)
        } else if same_text(name, "sin") {
            Some(FunctionKind::Sin)
        } else if same_text(name, "cos") {
            Some(FunctionKind::Cos)
        } else if same_text(name, "tan") {
            Some(FunctionKind::Tan)
        } else if same_text(name, "asin") {
            Some(FunctionKind::ArcSin)
        } else if same_text(name, "acos") {
            Some(FunctionKind::ArcCos)
        } else if same_text(name, "atan") {
            Some(FunctionKind::ArcTan)
        } else if same_text(name, "ln") {
            Some(FunctionKind::Ln)
        } else if same_text(name, "log") {
            Some(FunctionKind::Log)
        } else if same_text(name, "logb") {
            Some(FunctionKind::LogBased)
        } else if same_text(name, "round") {
            Some(FunctionKind::Round)
        } else if same_text(name, "floor") {
            Some(FunctionKind::Floor)
        } else if same_text(name, "ceil") {
            Some(FunctionKind::Ceil)
        } else if same_text(name, "trunc") {
            Some(FunctionKind::Trunc)
        } else if same_text(name, "frac") {
            Some(FunctionKind::Frac)
        } else if same_text(name, "deg") {
            Some(FunctionKind::Deg)
        } else if same_text(name, "rad") {
            Some(FunctionKind::Rad)
        } else {
            None
        }
    }
}

/// A call of a function: its argument and the offset of its name. The
/// logarithm to a chosen base also holds that base, a literal.
#[derive(Debug, PartialEq)]
pub enum Function {
    Sqrt(Expr, usize),
    Cbrq(Expr, usize),
    Abs(Expr, usize),
    Sin(Expr, usize),
    Cos(Expr, usize),
    Tan(Expr, usize),
    ArcSin(Expr, usize),
    ArcCos(Expr, usize),
    ArcTan(Expr, usize),
    Ln(Expr, usize),
    Log(Expr, usize),
    LogBased(Expr, Decimal, usize),
    Round(Expr, usize),
    Floor(Expr, usize),
    Ceil(Expr, usize),
    Trunc(Expr, usize),
    Frac(Expr, usize),
    Deg(Expr, usize),
    Rad(Expr, usize),
}

/// The mathematical content of a [`Function`].
pub struct FunctionView {
    pub kind: FunctionKind,
    pub argument: Box<ExprView>,
    pub base: Option<DecimalView>,
    pub span: usize,
}

/// The view of a call.
pub open spec fn function_view(f: Function) -> FunctionView
    decreases f,
{
    match f {
        Function::Sqrt(a, s) => plain_call(FunctionKind::Sqrt, expr_view(a), s),
        Function::Cbrq(a, s) => plain_call(FunctionKind::Cbrq, expr_view(a), s),
        Function::Abs(a, s) => plain_call(FunctionKind::Abs, expr_view(a), s),
        Function::Sin(a, s) => plain_call(FunctionKind::Sin, expr_view(a), s),
        Function::Cos(a, s) => plain_call(FunctionKind::Cos, expr_view(a), s),
        Function::Tan(a, s) => plain_call(FunctionKind::Tan, expr_view(a), s),
        Function::ArcSin(a, s) => plain_call(FunctionKind::ArcSin, expr_view(a), s),
        Function::ArcCos(a, s) => plain_call(FunctionKind::ArcCos, expr_view(a), s),
        Function::ArcTan(a, s) => plain_call(FunctionKind::ArcTan, expr_view(a), s),
        Function::Ln(a, s) => plain_call(FunctionKind::Ln, expr_view(a), s),
        Function::Log(a, s) => plain_call(FunctionKind::Log, expr_view(a), s),
        Function::LogBased(a, b, s) => FunctionView {
            kind: FunctionKind::LogBased,
            argument: Box::new(expr_view(a)),
            base: Some(b@),
            span: s,
        },
        Function::Round(a, s) => plain_call(FunctionKind::Round, expr_view(a), s),
        Function::Floor(a, s) => plain_call(FunctionKind::Floor, expr_view(a), s),
        Function::Ceil(a, s) => plain_call(FunctionKind::Ceil, expr_view(a), s),
        Function::Trunc(a, s) => plain_call(FunctionKind::Trunc, expr_view(a), s),
        Function::Frac(a, s) => plain_call(FunctionKind::Frac, expr_view(a), s),
        Function::Deg(a, s) => plain_call(FunctionKind::Deg, expr_view(a), s),
        Function::Rad(a, s) => plain_call(FunctionKind::Rad, expr_view(a), s),
    }
}

/// The view of a call that has no base.
pub open spec fn plain_call(kind: FunctionKind, argument: ExprView, span: usize) -> FunctionView {
    FunctionView { kind, argument: Box::new(argument), base: None, span }
}

impl View for Function {
    type V = FunctionView;

    open spec fn view(&self) -> FunctionView {
        function_view(*self)
    }
}

impl Function {
    /// Which function the call applies.
    pub fn kind(&self) -> (r: FunctionKind)
        ensures
            r == self@.kind,
    {
        match self {
            Function::Sqrt(_, _) => FunctionKind::Sqrt,
            Function::Cbrq(_, _) => FunctionKind::Cbrq,
            Function::Abs(_, _) => FunctionKind::Abs,
            Function::Sin(_, _) => FunctionKind::Sin,
            Function::Cos(_, _) => FunctionKind::Cos,
            Function::Tan(_, _) => FunctionKind::Tan,
            Function::ArcSin(_, _) => FunctionKind::ArcSin,
            Function::ArcCos(_, _) => FunctionKind::ArcCos,
            Function::ArcTan(_, _) => FunctionKind::ArcTan,
            Function::Ln(_, _) => FunctionKind::Ln,
            Function::Log(_, _) => FunctionKind::Log,
            Function::LogBased(_, _, _) => FunctionKind::LogBased,
            Function::Round(_, _) => FunctionKind::Round,
            Function::Floor(_, _) => FunctionKind::Floor,
            Function::Ceil(_, _) => FunctionKind::Ceil,
            Function::Trunc(_, _) => FunctionKind::Trunc,
            Function::Frac(_, _) => FunctionKind::Frac,
            Function::Deg(_, _) => FunctionKind::Deg,
            Function::Rad(_, _) => FunctionKind::Rad,
        }
    }

    /// The argument of the call.
    pub fn argument(&self) -> (r: &Expr)
        ensures
            r@ == *self@.argument,
            decreases_to!(*self => *r),
    {
        match self {
            Function::Sqrt(a, _) => a,
            Function::Cbrq(a, _) => a,
            Function::Abs(a, _) => a,
            Function::Sin(a, _) => a,
            Function::Cos(a, _) => a,
            Function::Tan(a, _) => a,
            Function::ArcSin(a, _) => a,
            Function::ArcCos(a, _) => a,
            Function::ArcTan(a, _) => a,
            Function::Ln(a, _) => a,
            Function::Log(a, _) => a,
            Function::LogBased(a, _, _) => a,
            Function::Round(a, _) => a,
            Function::Floor(a, _) => a,
            Function::Ceil(a, _) => a,
            Function::Trunc(a, _) => a,
            Function::Frac(a, _) => a,
            Function::Deg(a, _) => a,
            Function::Rad(a, _) => a,
        }
    }

    /// The base of a logarithm to a chosen base.
    pub fn base(&self) -> (r: Option<&Decimal>)
        ensures
            match r {
                Some(b) => self@.base == Some(b@),
                None => self@.base is None,
            },
    {
        match self {
            Function::LogBased(_, b, _) => Some(b),
            _ => None,
        }
    }

    /// The offset of the name of the function.
    pub fn span(&self) -> (r: usize)
        ensures
            r == self@.span,
    {
        match self {
            Function::Sqrt(_, s) => *s,
            Function::Cbrq(_, s) => *s,
            Function::Abs(_, s) => *s,
            Function::Sin(_, s) => *s,
            Function::Cos(_, s) => *s,
            Function::Tan(_, s) => *s,
            Function::ArcSin(_, s) => *s,
            Function::ArcCos(_, s) => *s,
            Function::ArcTan(_, s) => *s,
            Function::Ln(_, s) => *s,
            Function::Log(_, s) => *s,
            Function::LogBased(_, _, s) => *s,
            Function::Round(_, s) => *s,
            Function::Floor(_, s) => *s,
            Function::Ceil(_, s) => *s,
            Function::Trunc(_, s) => *s,
            Function::Frac(_, s) => *s,
            Function::Deg(_, s) => *s,
            Function::Rad(_, s) => *s,
        }
    }

    /// The call of the function `kind` on `argument`, written at `span`.
    /// The logarithm to a chosen base takes its base from `base`.
    pub fn build(kind: FunctionKind, argument: Expr, base: Option<Decimal>, span: usize) -> (r:
        Function)
        requires
            kind == FunctionKind::LogBased ==> base is Some,
        ensures
            r@.kind == kind,
            *r@.argument == argument@,
            r@.span == span,
            r@.base == if kind == FunctionKind::LogBased {
                Some(base->0@)
            } else {
                None
            },
    {
        match kind {
            FunctionKind::Sqrt => Function::Sqrt(argument, span),
            FunctionKind::Cbrq => Function::Cbrq(argument, span),
            FunctionKind::Abs => Function::Abs(argument, span),
            FunctionKind::Sin => Function::Sin(argument, span),
            FunctionKind::Cos => Function::Cos(argument, span),
            FunctionKind::Tan => Function::Tan(argument, span),
            FunctionKind::ArcSin => Function::ArcSin(argument, span),
            FunctionKind::ArcCos => Function::ArcCos(argument, span),
            FunctionKind::ArcTan => Function::ArcTan(argument, span),
            FunctionKind::Ln => Function::Ln(argument, span),
            FunctionKind::Log => Function::Log(argument, span),
            FunctionKind::LogBased => {
                match base {
                    Some(b) => Function::LogBased(argument, b, span),
                    None => Function::Log(argument, span),
                }
            },
            FunctionKind::Round => Function::Round(argument, span),
            FunctionKind::Floor => Function::Floor(argument, span),
            FunctionKind::Ceil => Function::Ceil(argument, span),
            FunctionKind::Trunc => Function::Trunc(argument, span),
            FunctionKind::Frac => Function::Frac(argument, span),
            FunctionKind::Deg => Function::Deg(argument, span),
            FunctionKind::Rad => Function::Rad(argument, span),
        }
    }
}

} // verus!
