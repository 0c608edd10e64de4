//! Validation of a token sequence and parsing into an expression tree.

pub mod grammar;
pub mod laws;
pub mod validate;

use crate::ast::expr::{Expr, ExprView};
use crate::ast::token::{tokenize_spec, Calculation, TokenView, Tokenize};
use crate::maph_error::{Error, ErrorView};
use core::str::FromStr;
use vstd::prelude::*;

verus! {

/// The tree that the text `s` spells: its tokens, validated and parsed; or
/// the errors of the first stage that fails.
pub open spec fn expr_of_text(s: Seq<char>) -> Result<ExprView, Seq<ErrorView>> {
    match tokenize_spec(s) {
        Err(errors) => Err(errors),
        Ok(tokens) => match validate::pre_parse_spec(tokens) {
            Err(errors) => Err(errors),
            Ok(folded) => grammar::parse_spec(folded),
        },
    }
}

impl FromStr for Expr {
    type Err = Vec<Error>;

    /// Reads an expression from a text: splits it into tokens, validates
    /// them and parses them. The errors are those of the first stage that
    /// fails.
    fn from_str(s: &str) -> (r: Result<Expr, Vec<Error>>)
        ensures
            grammar::parse_result_view(r) == expr_of_text(s@),
    {
        let tokens = match s.tokenize() {
            Err(errors) => {
                return Err(errors);
            },
            Ok(tokens) => tokens,
        };
        let folded = match tokens.pre_parse() {
            Err(errors) => {
                return Err(errors);
            },
            Ok(folded) => folded,
        };
        folded.parse()
    }
}

/// Reading a text twice gives the same: whatever two readings of one
/// text return, a tree or errors, the two results have the same content.
pub proof fn lemma_reading_is_a_function(
    s: Seq<char>,
    first: Result<Expr, Vec<Error>>,
    second: Result<Expr, Vec<Error>>,
)
    requires
        grammar::parse_result_view(first) == expr_of_text(s),
        grammar::parse_result_view(second) == expr_of_text(s),
    ensures
        grammar::parse_result_view(first) == grammar::parse_result_view(second),
        first is Ok <==> second is Ok,
{
}

/// Token sequences that can be validated and parsed.
pub trait Parse {
    type Err;

    type ItSelf;

    type Output;

    /// Runs every check, and returns the sequence made ready for parsing or
    /// the errors of all checks.
    fn pre_parse(self) -> Result<Self::ItSelf, Self::Err>;

    /// Checks that the brackets match.
    fn verify_scoping(&self) -> Result<(), Self::Err>;

    /// Checks that no operator follows another.
    fn verify_operator(&self) -> Result<(), Self::Err>;

    /// Folds the minus signs that stand before a number into the number.
    fn concat_minus_and_number(&mut self);

    /// Checks that every identifier is a known name.
    fn verify_fonction_name(&self) -> Result<(), Self::Err>;

    /// Parses the sequence into a tree.
    fn parse(self) -> Result<Self::Output, Self::Err>;
}

impl Parse for Calculation {
    type Err = Vec<Error>;

    type ItSelf = Self;

    type Output = Expr;

    /// Runs every check and the folding of minus signs. Returns the folded
    /// sequence where all checks pass, else the errors of all of them: of
    /// the brackets first, then of the operators, then of the names.
    fn pre_parse(self) -> (r: Result<Calculation, Vec<Error>>)
        ensures
            match r {
                Ok(folded) => validate::pre_parse_spec(self.deep_view()) == Ok::<
                    Seq<TokenView>,
                    Seq<ErrorView>,
                >(folded.deep_view()),
                Err(errors) => validate::pre_parse_spec(self.deep_view()) == Err::<
                    Seq<TokenView>,
                    Seq<ErrorView>,
                >(errors.deep_view()),
            },
    {
        validate::validate(self)
    }

    /// Checks that every closing bracket closes an open one and that none
    /// stays open. The first closing bracket that finds none open is the
    /// error; else one error lists every bracket left open, outermost first.
    fn verify_scoping(&self) -> (r: Result<(), Vec<Error>>)
        ensures
            validate::reports(r, validate::scoping_errors(self.deep_view())),
    {
        validate::check_scoping(self)
    }

    /// Checks that no operator follows another: each run of two or more
    /// operators gives one error, which names the first of the run.
    fn verify_operator(&self) -> (r: Result<(), Vec<Error>>)
        ensures
            validate::reports(r, validate::operator_errors(self.deep_view(), self.len() as int)),
    {
        validate::check_operators(self)
    }

    /// Removes every minus sign that stands before a number, or before
    /// minus signs that do, and negates the number once for each.
    fn concat_minus_and_number(&mut self)
        ensures
            final(self).deep_view() == validate::fold_minus(old(self).deep_view()),
    {
        validate::fold_minus_signs(self)
    }

    /// Checks that every identifier names a function, letter for letter, or
    /// a constant; each other identifier gives one error.
    fn verify_fonction_name(&self) -> (r: Result<(), Vec<Error>>)
        ensures
            validate::reports(r, validate::name_errors(self.deep_view(), self.len() as int)),
    {
        validate::check_names(self)
    }

    /// Parses the sequence into one expression tree, or returns the one
    /// error that stopped the parser.
    fn parse(self) -> (r: Result<Expr, Vec<Error>>)
        ensures
            grammar::parse_result_view(r) == grammar::parse_spec(self.deep_view()),
    {
        grammar::parse_tokens(&self)
    }
}

} // verus!
