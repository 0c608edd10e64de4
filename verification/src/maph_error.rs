//! Diagnostics: what went wrong and at which offsets of the input.

use crate::ast::token::operator::Operator;
use vstd::prelude::*;

verus! {

/// What a diagnostic reports.
#[derive(Debug, PartialEq)]
pub enum ErrorKinds {
    /// A character that is no part of the language.
    InvalideChar(char),
    /// A number written with more than one decimal separator.
    MultipleComma,
    /// A text that is no number, operator, bracket or identifier.
    UnknowOperator(String),
    /// An opening bracket that is never closed.
    UnclosedBrack,
    /// A closing bracket with no bracket open.
    UnexeptedBrack,
    /// An operator where an operand was due.
    UnexeptedOperator(Operator),
    /// A division whose divisor is zero.
    DivisionByZero,
    /// A floor division whose divisor is zero.
    ModuloByZero,
    /// A square root of a negative number.
    NegativeSqrt,
    /// An argument outside the closed range between the two bounds.
    NotInRange(i64, i64),
    /// An identifier that names neither a function nor a constant.
    UnknowFonction(String),
}

/// The mathematical content of an [`ErrorKinds`].
pub enum ErrorKindsView {
    InvalideChar(char),
    MultipleComma,
    UnknowOperator(Seq<char>),
    UnclosedBrack,
    UnexeptedBrack,
    UnexeptedOperator(Operator),
    DivisionByZero,
    ModuloByZero,
    NegativeSqrt,
    NotInRange(i64, i64),
    UnknowFonction(Seq<char>),
}

impl View for ErrorKinds {
    type V = ErrorKindsView;

    open spec fn view(&self) -> ErrorKindsView {
        match self {
            ErrorKinds::InvalideChar(c) => ErrorKindsView::InvalideChar(*c),
            ErrorKinds::MultipleComma => ErrorKindsView::MultipleComma,
            ErrorKinds::UnknowOperator(s) => ErrorKindsView::UnknowOperator(s@),
            ErrorKinds::UnclosedBrack => ErrorKindsView::UnclosedBrack,
            ErrorKinds::UnexeptedBrack => ErrorKindsView::UnexeptedBrack,
            ErrorKinds::UnexeptedOperator(op) => ErrorKindsView::UnexeptedOperator(*op),
            ErrorKinds::DivisionByZero => ErrorKindsView::DivisionByZero,
            ErrorKinds::ModuloByZero => ErrorKindsView::ModuloByZero,
            ErrorKinds::NegativeSqrt => ErrorKindsView::NegativeSqrt,
            ErrorKinds::NotInRange(a, b) => ErrorKindsView::NotInRange(*a, *b),
            ErrorKinds::UnknowFonction(s) => ErrorKindsView::UnknowFonction(s@),
        }
    }
}

/// A diagnostic: its kind and the offsets, counted in characters from the
/// start of the input, that it points at.
#[derive(Debug, PartialEq)]
pub struct Error {
    pub kind: ErrorKinds,
    pub span: Vec<usize>,
}

/// The mathematical content of an [`Error`].
pub struct ErrorView {
    pub kind: ErrorKindsView,
    pub span: Seq<usize>,
}

impl View for Error {
    type V = ErrorView;

    open spec fn view(&self) -> ErrorView {
        ErrorView { kind: self.kind@, span: self.span@ }
    }
}

impl DeepView for Error {
    type V = ErrorView;

    open spec fn deep_view(&self) -> ErrorView {
        self@
    }
}

impl Error {
    /// The diagnostic of the given kind that points at the offsets `span`.
    pub fn new(kind: ErrorKinds, span: Vec<usize>) -> (r: Self)
        ensures
            r.kind == kind,
            r.span == span,
    {
        Self { kind, span }
    }

    /// Turns offsets counted back from `span` into offsets counted from the
    /// start: every entry `s` becomes `span - s`.
    pub fn add_span(&mut self, span: usize)
        requires
            forall|i: int| 0 <= i < old(self).span@.len() ==> old(self).span@[i] <= span,
        ensures
            final(self).kind == old(self).kind,
            final(self).span@.len() == old(self).span@.len(),
            forall|i: int|
                0 <= i < old(self).span@.len() ==> final(self).span@[i] == span - old(self).span@[i],
    {
        let mut i: usize = 0;
        while i < self.span.len()
            invariant
                i <= self.span@.len(),
                self.kind == old(self).kind,
                self.span@.len() == old(self).span@.len(),
                forall|j: int| 0 <= j < i ==> self.span@[j] == span - old(self).span@[j],
                forall|j: int| i <= j < self.span@.len() ==> self.span@[j] == old(self).span@[j],
                forall|j: int| 0 <= j < old(self).span@.len() ==> old(self).span@[j] <= span,
            decreases self.span@.len() - i,
        {
            let s = self.span[i];
            self.span.set(i, span - s);
            i += 1;
        }
    }
}

} // verus!
