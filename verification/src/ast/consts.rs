//! The named constants.

use crate::chars::{lower, lowered, to_chars};
use vstd::prelude::*;

verus! {

/// A named constant, with the offset of the identifier that wrote it.
#[derive(Clone, Copy, Debug, PartialEq, Eq, Structural)]
pub enum Const {
    /// The ratio of a circle's circumference to its diameter.
    Pi(usize),
    /// The base of the natural logarithm.
    E(usize),
    /// Positive infinity.
    Inf(usize),
}

/// The text `pi`.
pub open spec fn pi_name() -> Seq<char> {
    seq!['p', 'i']
}

/// The text `e`.
pub open spec fn e_name() -> Seq<char> {
    seq!['e']
}

/// The text `inf`.
pub open spec fn inf_name() -> Seq<char> {
    seq!['i', 'n', 'f']
}

impl Const {
    /// The constant that `name` names at offset `span`: `pi`, `e` or `inf`,
    /// in any mix of upper and lower case.
    pub open spec fn of_name(name: Seq<char>, span: usize) -> Option<Const> {
        if lowered(name) == pi_name() {
            Some(Const::Pi(span))
        } else if lowered(name) == e_name() {
            Some(Const::E(span))
        } else if lowered(name) == inf_name() {
            Some(Const::Inf(span))
        } else {
            None
        }
    }

    /// The offset of the identifier that wrote the constant.
    pub open spec fn spec_span(self) -> usize {
        match self {
            Const::Pi(span) => span,
            Const::E(span) => span,
            Const::Inf(span) => span,
        }
    }

    /// The offset of the identifier that wrote the constant.
    #[verifier::when_used_as_spec(spec_span)]
    pub fn span(self) -> (r: usize)
        ensures
            r == self.spec_span(),
    {
        match self {
            Const::Pi(span) => span,
            Const::E(span) => span,
            Const::Inf(span) => span,
        }
    }

    /// Reads a constant from its name, whatever the case of its letters.
    pub fn from_name(name: &str, span: usize) -> (r: Option<Const>)
        ensures
            r == Const::of_name(name@, span),
    {
        let v = to_chars(name);
        let mut low: Vec<char> = Vec::new();
        let mut i: usize = 0;
        while i < v.len()
            invariant
                i <= v.len(),
                low@ == lowered(v@.take(i as int)),
            decreases v.len() - i,
        {
            let c = v[i];
            let l = if 'A' <= c && c <= 'Z' {
                ((c as u8) + 32) as char
            } else {
                c
            };
            low.push(l);
            assert(low@ =~= lowered(v@.take(i + 1)));
            i += 1;
        }
        assert(v@.take(v.len() as int) =~= v@);
        if low.len() == 2 && low[0] == 'p' && low[1] == 'i' {
            assert(low@ =~= pi_name());
            Some(Const::Pi(span))
        } else if low.len() == 1 && low[0] == 'e' {
            assert(low@ =~= e_name());
            assert(pi_name().len() == 2);
            Some(Const::E(span))
        } else if low.len() == 3 && low[0] == 'i' && low[1] == 'n' && low[2] == 'f' {
            assert(low@ =~= inf_name());
            assert(pi_name().len() == 2);
            assert(e_name().len() == 1);
            Some(Const::Inf(span))
        } else {
            assert(low@ == pi_name() ==> low@.len() == 2 && low@[0] == 'p' && low@[1] == 'i');
            assert(low@ == e_name() ==> low@.len() == 1 && low@[0] == 'e');
            assert(low@ == inf_name() ==> low@.len() == 3 && low@[0] == 'i' && low@[1] == 'n'
                && low@[2] == 'f');
            None
        }
    }
}

} // verus!
