//! The binary operators and the texts that spell them.

use crate::chars::to_chars;
use core::str::FromStr;
use vstd::prelude::*;
use vstd::string::StringExecFns;

verus! {

/// A binary operator. `Mod` is the Euclidean remainder, `FDiv` the quotient
/// truncated to an integer.
#[derive(Clone, Copy, Debug, PartialEq, Eq, Structural)]
pub enum Operator {
    /// `+`
    Add,
    /// `-`
    Sub,
    /// `*`
    Mul,
    /// `/`
    Div,
    /// `^`
    Pow,
    /// `%`
    Mod,
    /// `//` or `~`
    FDiv,
}

impl Operator {
    /// The operator that `s` spells, if it spells one.
    pub open spec fn of_text(s: Seq<char>) -> Option<Operator> {
        if s == seq!['+'] {
            Some(Operator::Add)
        } else if s == seq!['-'] {
            Some(Operator::Sub)
        } else if s == seq!['*'] {
            Some(Operator::Mul)
        } else if s == seq!['/'] {
            Some(Operator::Div)
        } else if s == seq!['^'] {
            Some(Operator::Pow)
        } else if s == seq!['%'] {
            Some(Operator::Mod)
        } else if s == seq!['/', '/'] || s == seq!['~'] {
            Some(Operator::FDiv)
        } else {
            None
        }
    }

    /// The text of the error that `from_str` returns for `s`.
    pub open spec fn unknown_text(s: Seq<char>) -> Seq<char> {
        "Try to create an Operator from an unkwon &str : `"@ + s + "`"@
    }

    /// The operator spelled by the characters `v`, if any.
    pub fn from_chars(v: &Vec<char>) -> (r: Option<Operator>)
        ensures
            r == Operator::of_text(v@),
    {
        if v.len() == 1 {
            let c = v[0];
            assert(v@ =~= seq![c]);
            assert(forall|d: char| seq![c] == seq![d] ==> seq![c][0] == seq![d][0]);
            assert(seq!['/', '/'].len() == 2);
            if c == '+' {
                Some(Operator::Add)
            } else if c == '-' {
                Some(Operator::Sub)
            } else if c == '*' {
                Some(Operator::Mul)
            } else if c == '/' {
                Some(Operator::Div)
            } else if c == '^' {
                Some(Operator::Pow)
            } else if c == '%' {
                Some(Operator::Mod)
            } else if c == '~' {
                Some(Operator::FDiv)
            } else {
                None
            }
        } else if v.len() == 2 && v[0] == '/' && v[1] == '/' {
            assert(v@ =~= seq!['/', '/']);
            assert(seq!['+'].len() == 1);
            Some(Operator::FDiv)
        } else {
            assert(seq!['+'].len() == 1);
            assert(seq!['/', '/'].len() == 2);
            assert(v@ == seq!['/', '/'] ==> v@[0] == '/' && v@[1] == '/');
            None
        }
    }

}

impl FromStr for Operator {
    type Err = String;

    /// Reads an operator from its spelling: `+ - * / ^ %`, and `//` or `~`
    /// for the floor division. Any other text is an error that quotes it.
    fn from_str(s: &str) -> (r: Result<Operator, String>)
        ensures
            match Operator::of_text(s@) {
                Some(op) => r == Ok::<Operator, String>(op),
                None => r is Err && r->Err_0@ == Operator::unknown_text(s@),
            },
    {
        let v = to_chars(s);
        match Operator::from_chars(&v) {
            Some(op) => Ok(op),
            None => {
                let message = "Try to create an Operator from an unkwon &str : `".to_owned().concat(
                    s,
                ).concat("`");
                Err(message)
            },
        }
    }
}

} // verus!
