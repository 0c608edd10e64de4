//! The grammar and the parser. From the loosest binding to the tightest:
//! sums and differences; products, quotients, remainders and floor
//! quotients, among them the products written without a sign; powers, which
//! group to the right; and operands: numbers, constants, calls and
//! bracketed expressions.

use crate::ast::consts::Const;
use crate::ast::expr::{Expr, ExprView};
use crate::ast::function::{Function, FunctionKind};
use crate::ast::token::operator::Operator;
use crate::ast::token::{Calculation, Token, TokenKind, TokenKindView, TokenView};
use crate::ast::tree::TreeNode;
use crate::maph_error::{Error, ErrorKinds, ErrorKindsView, ErrorView};
use crate::views::one;
use vstd::prelude::*;

verus! {

/// What parsing from some position gives: a tree and the position behind
/// the tokens it was made from, or the error that stopped it.
pub type Parsed = Result<(ExprView, int), ErrorView>;

/// The error that reports a token standing where it cannot stand.
pub open spec fn unexpected(token: TokenView) -> ErrorView {
    let kind = match token.token_kind {
        TokenKindView::Op(op) => ErrorKindsView::UnexeptedOperator(op),
        TokenKindView::RBrack => ErrorKindsView::UnexeptedBrack,
        TokenKindView::LBrack => ErrorKindsView::UnclosedBrack,
        TokenKindView::Ident(name) => ErrorKindsView::UnknowFonction(name),
        TokenKindView::Number(d) => ErrorKindsView::UnknowOperator(d.text),
    };
    ErrorView { kind, span: seq![token.span] }
}

/// The error of an input that holds no token at all.
pub open spec fn nothing_to_parse() -> ErrorView {
    ErrorView { kind: ErrorKindsView::UnknowOperator(Seq::empty()), span: Seq::empty() }
}

/// The error of an operand that is missing at `pos`: it reports the token
/// found there, or, at the end of the input, the last token.
pub open spec fn missing_operand(t: Seq<TokenView>, pos: int) -> ErrorView {
    if 0 <= pos < t.len() {
        unexpected(t[pos])
    } else if t.len() == 0 {
        nothing_to_parse()
    } else {
        unexpected(t.last())
    }
}

/// A token with which an operand can start.
pub open spec fn starts_operand(token: TokenView) -> bool {
    token.token_kind is Number || token.token_kind is Ident || token.token_kind is LBrack
}

/// An operator of the rank of the product.
pub open spec fn is_product_operator(op: Operator) -> bool {
    op == Operator::Mul || op == Operator::Div || op == Operator::Mod || op == Operator::FDiv
}

/// An operator of the rank of the sum.
pub open spec fn is_sum_operator(op: Operator) -> bool {
    op == Operator::Add || op == Operator::Sub
}

/// The tree of a binary operation.
pub open spec fn node(left: ExprView, op: Operator, right: ExprView) -> ExprView {
    ExprView::Node(Box::new(left), op, Box::new(right))
}

/// Ends the bracket that was opened at `open`: behind the expression inside
/// it a closing bracket must stand.
pub open spec fn close_group(t: Seq<TokenView>, open: int, inner: Parsed) -> Parsed {
    match inner {
        Err(e) => Err(e),
        Ok((e, next)) => if 0 <= next < t.len() && t[next].token_kind is RBrack {
            Ok((e, next + 1))
        } else {
            Err(ErrorView { kind: ErrorKindsView::UnclosedBrack, span: seq![t[open].span] })
        },
    }
}

/// The base of the logarithm called at `pos`, which stands directly behind
/// the name, if a number stands there.
pub open spec fn call_base(t: Seq<TokenView>, pos: int) -> Option<
    crate::ast::token::number::DecimalView,
> {
    if pos + 1 < t.len() {
        match t[pos + 1].token_kind {
            TokenKindView::Number(d) => Some(d),
            _ => None,
        }
    } else {
        None
    }
}

/// The position at which the bracket of the call at `pos` must open, or
/// `None` where the call is not well written: the name is followed by its
/// bracket, and the name of the logarithm to a chosen base by the base and
/// then the bracket.
pub open spec fn call_bracket(t: Seq<TokenView>, pos: int, kind: FunctionKind) -> Option<int> {
    let open = if kind == FunctionKind::LogBased {
        pos + 2
    } else {
        pos + 1
    };
    if (kind == FunctionKind::LogBased && call_base(t, pos) is None) || !(open < t.len()
        && t[open].token_kind is LBrack) {
        None
    } else {
        Some(open)
    }
}

/// Parses one operand that starts at `pos`.
pub open spec fn parse_primary(t: Seq<TokenView>, pos: int) -> Parsed
    decreases t.len() - pos, 0int,
{
    if !(0 <= pos < t.len()) {
        Err(missing_operand(t, pos))
    } else {
        match t[pos].token_kind {
            TokenKindView::Number(d) => Ok((ExprView::Number(d, t[pos].span), pos + 1)),
            TokenKindView::Ident(name) => {
                if Const::of_name(name, t[pos].span) is Some {
                    Ok((ExprView::Const(Const::of_name(name, t[pos].span)->0), pos + 1))
                } else if FunctionKind::of_name(name) is None {
                    Err(unexpected(t[pos]))
                } else {
                    let kind = FunctionKind::of_name(name)->0;
                    match call_bracket(t, pos, kind) {
                        None => Err(unexpected(t[pos])),
                        Some(open) => match close_group(t, open, parse_expr(t, open + 1)) {
                            Err(e) => Err(e),
                            Ok((argument, next)) => Ok(
                                (
                                    ExprView::Function(
                                        kind,
                                        Box::new(argument),
                                        if kind == FunctionKind::LogBased {
                                            call_base(t, pos)
                                        } else {
                                            None
                                        },
                                        t[pos].span,
                                    ),
                                    next,
                                ),
                            ),
                        },
                    }
                }
            },
            TokenKindView::LBrack => close_group(t, pos, parse_expr(t, pos + 1)),
            _ => Err(unexpected(t[pos])),
        }
    }
}

/// Parses an operand and the power it may be raised to. Powers group to the
/// right.
pub open spec fn parse_power(t: Seq<TokenView>, pos: int) -> Parsed
    decreases t.len() - pos, 1int,
{
    match parse_primary(t, pos) {
        Err(e) => Err(e),
        Ok((base, next)) => if pos < next < t.len() && t[next].token_kind == TokenKindView::Op(
            Operator::Pow,
        ) {
            match parse_power(t, next + 1) {
                Err(e) => Err(e),
                Ok((exponent, after)) => Ok((node(base, Operator::Pow, exponent), after)),
            }
        } else {
            Ok((base, next))
        },
    }
}

/// Goes on with a product whose left operand `left` ends before `pos`: each
/// operator of the rank of the product, and each operand that follows
/// without an operator, takes what stands to its left as its left operand.
pub open spec fn parse_term_rest(t: Seq<TokenView>, left: ExprView, pos: int) -> Parsed
    decreases t.len() - pos, 2int,
{
    if !(0 <= pos < t.len()) {
        Ok((left, pos))
    } else if t[pos].token_kind is Op && is_product_operator(t[pos].token_kind->Op_0) {
        match parse_power(t, pos + 1) {
            Err(e) => Err(e),
            Ok((right, next)) => if pos < next <= t.len() {
                parse_term_rest(t, node(left, t[pos].token_kind->Op_0, right), next)
            } else {
                Ok((left, pos))
            },
        }
    } else if starts_operand(t[pos]) {
        match parse_power(t, pos) {
            Err(e) => Err(e),
            Ok((right, next)) => if pos < next <= t.len() {
                parse_term_rest(t, node(left, Operator::Mul, right), next)
            } else {
                Ok((left, pos))
            },
        }
    } else {
        Ok((left, pos))
    }
}

/// Parses a product that starts at `pos`.
pub open spec fn parse_term(t: Seq<TokenView>, pos: int) -> Parsed
    decreases t.len() - pos, 3int,
{
    match parse_power(t, pos) {
        Err(e) => Err(e),
        Ok((left, next)) => if pos < next <= t.len() {
            parse_term_rest(t, left, next)
        } else {
            Ok((left, next))
        },
    }
}

/// Goes on with a sum whose left operand `left` ends before `pos`.
pub open spec fn parse_expr_rest(t: Seq<TokenView>, left: ExprView, pos: int) -> Parsed
    decreases t.len() - pos, 4int,
{
    if 0 <= pos < t.len() && t[pos].token_kind is Op && is_sum_operator(t[pos].token_kind->Op_0) {
        match parse_term(t, pos + 1) {
            Err(e) => Err(e),
            Ok((right, next)) => if pos < next <= t.len() {
                parse_expr_rest(t, node(left, t[pos].token_kind->Op_0, right), next)
            } else {
                Ok((left, pos))
            },
        }
    } else {
        Ok((left, pos))
    }
}

/// Parses an expression that starts at `pos`.
pub open spec fn parse_expr(t: Seq<TokenView>, pos: int) -> Parsed
    decreases t.len() - pos, 5int,
{
    match parse_term(t, pos) {
        Err(e) => Err(e),
        Ok((left, next)) => if pos < next <= t.len() {
            parse_expr_rest(t, left, next)
        } else {
            Ok((left, next))
        },
    }
}

/// The tree of the whole sequence `t`, or the error that stopped the
/// parser: the expression must end where the sequence ends.
pub open spec fn parse_spec(t: Seq<TokenView>) -> Result<ExprView, Seq<ErrorView>> {
    match parse_expr(t, 0) {
        Err(e) => Err(seq![e]),
        Ok((e, next)) => if 0 <= next < t.len() {
            Err(seq![unexpected(t[next])])
        } else {
            Ok(e)
        },
    }
}

/// The view of what the parser returns from some position.
pub open spec fn parsed_view(r: Result<(Expr, usize), Error>) -> Parsed {
    match r {
        Ok((e, next)) => Ok((e@, next as int)),
        Err(e) => Err(e@),
    }
}

/// The view of what the parser returns for a whole sequence.
pub open spec fn parse_result_view(r: Result<Expr, Vec<Error>>) -> Result<
    ExprView,
    Seq<ErrorView>,
> {
    match r {
        Ok(e) => Ok(e@),
        Err(errors) => Err(errors.deep_view()),
    }
}

fn unexpected_token(token: &Token) -> (r: Error)
    ensures
        r@ == unexpected(token@),
{
    let kind = match &token.token_kind {
        TokenKind::Op(op) => ErrorKinds::UnexeptedOperator(*op),
        TokenKind::RBrack => ErrorKinds::UnexeptedBrack,
        TokenKind::LBrack => ErrorKinds::UnclosedBrack,
        TokenKind::Ident(name) => ErrorKinds::UnknowFonction(name.clone()),
        TokenKind::Number(d) => ErrorKinds::UnknowOperator(d.text().to_owned()),
    };
    Error::new(kind, one(token.span))
}

fn missing_operand_error(tokens: &Calculation, pos: usize) -> (r: Error)
    ensures
        r@ == missing_operand(tokens.deep_view(), pos as int),
{
    if pos < tokens.len() {
        unexpected_token(&tokens[pos])
    } else if tokens.len() == 0 {
        let text = String::new();
        Error::new(ErrorKinds::UnknowOperator(text), Vec::new())
    } else {
        unexpected_token(&tokens[tokens.len() - 1])
    }
}

fn is_closing(token: &Token) -> (r: bool)
    ensures
        r == (token@.token_kind is RBrack),
{
    match token.token_kind {
        TokenKind::RBrack => true,
        _ => false,
    }
}

fn is_opening(token: &Token) -> (r: bool)
    ensures
        r == (token@.token_kind is LBrack),
{
    match token.token_kind {
        TokenKind::LBrack => true,
        _ => false,
    }
}

fn operand_start(token: &Token) -> (r: bool)
    ensures
        r == starts_operand(token@),
{
    match token.token_kind {
        TokenKind::Number(_) => true,
        TokenKind::Ident(_) => true,
        TokenKind::LBrack => true,
        _ => false,
    }
}

fn make_node(left: Expr, op: Operator, right: Expr) -> (r: Expr)
    ensures
        r@ == node(left@, op, right@),
{
    Expr::Node(Box::new(TreeNode { l_expr: left, op, r_expr: right }))
}

/// Parses the expression inside the bracket that opens at `open`, up to and
/// with its closing bracket.
fn group(tokens: &Calculation, open: usize) -> (r: Result<(Expr, usize), Error>)
    requires
        open < tokens.len(),
    ensures
        parsed_view(r) == close_group(
            tokens.deep_view(),
            open as int,
            parse_expr(tokens.deep_view(), open + 1),
        ),
        r is Ok ==> open < r->Ok_0.1 <= tokens.len(),
    decreases tokens.len() - open, 0int,
{
    match expr(tokens, open + 1) {
        Err(e) => Err(e),
        Ok((inner, next)) => {
            if next < tokens.len() && is_closing(&tokens[next]) {
                Ok((inner, next + 1))
            } else {
                Err(Error::new(ErrorKinds::UnclosedBrack, one(tokens[open].span)))
            }
        },
    }
}

/// Parses one operand.
fn primary(tokens: &Calculation, pos: usize) -> (r: Result<(Expr, usize), Error>)
    requires
        pos <= tokens.len(),
    ensures
        parsed_view(r) == parse_primary(tokens.deep_view(), pos as int),
        r is Ok ==> pos < r->Ok_0.1 <= tokens.len(),
    decreases tokens.len() - pos, 1int,
{
    if pos >= tokens.len() {
        return Err(missing_operand_error(tokens, pos));
    }
    let token = &tokens[pos];
    match &token.token_kind {
        TokenKind::Number(d) => Ok((Expr::Number(d.duplicate(), token.span), pos + 1)),
        TokenKind::Ident(name) => {
            match Const::from_name(name.as_str(), token.span) {
                Some(c) => Ok((Expr::Const(c), pos + 1)),
                None => match FunctionKind::from_name(name.as_str()) {
                    None => Err(unexpected_token(token)),
                    Some(kind) => call(tokens, pos, kind),
                },
            }
        },
        TokenKind::LBrack => group(tokens, pos),
        _ => Err(unexpected_token(token)),
    }
}

/// Parses the call of the function `kind` whose name stands at `pos`.
fn call(tokens: &Calculation, pos: usize, kind: FunctionKind) -> (r: Result<(Expr, usize), Error>)
    requires
        pos < tokens.len(),
    ensures
        parsed_view(r) == match call_bracket(tokens.deep_view(), pos as int, kind) {
            None => Err(unexpected(tokens.deep_view()[pos as int])),
            Some(open) => match close_group(
                tokens.deep_view(),
                open,
                parse_expr(tokens.deep_view(), open + 1),
            ) {
                Err(e) => Err(e),
                Ok((argument, next)) => Ok(
                    (
                        ExprView::Function(
                            kind,
                            Box::new(argument),
                            if kind == FunctionKind::LogBased {
                                call_base(tokens.deep_view(), pos as int)
                            } else {
                                None
                            },
                            tokens.deep_view()[pos as int].span,
                        ),
                        next,
                    ),
                ),
            },
        },
        r is Ok ==> pos < r->Ok_0.1 <= tokens.len(),
    decreases tokens.len() - pos, 0int,
{
    let is_based = match kind {
        FunctionKind::LogBased => true,
        _ => false,
    };
    let base = if is_based && pos + 1 < tokens.len() {
        match &tokens[pos + 1].token_kind {
            TokenKind::Number(d) => Some(d.duplicate()),
            _ => None,
        }
    } else {
        None
    };
    if is_based && base.is_none() {
        return Err(unexpected_token(&tokens[pos]));
    }
    let open = if is_based {
        pos + 2
    } else {
        pos + 1
    };
    if !(open < tokens.len() && is_opening(&tokens[open])) {
        return Err(unexpected_token(&tokens[pos]));
    }
    match group(tokens, open) {
        Err(e) => Err(e),
        Ok((argument, next)) => {
            let f = Function::build(kind, argument, base, tokens[pos].span);
            Ok((Expr::Function(Box::new(f)), next))
        },
    }
}

/// Parses an operand and the power it may be raised to.
fn power(tokens: &Calculation, pos: usize) -> (r: Result<(Expr, usize), Error>)
    requires
        pos <= tokens.len(),
    ensures
        parsed_view(r) == parse_power(tokens.deep_view(), pos as int),
        r is Ok ==> pos < r->Ok_0.1 <= tokens.len(),
    decreases tokens.len() - pos, 2int,
{
    match primary(tokens, pos) {
        Err(e) => Err(e),
        Ok((base, next)) => {
            let raised = next < tokens.len() && match tokens[next].token_kind {
                TokenKind::Op(Operator::Pow) => true,
                _ => false,
            };
            if raised {
                match power(tokens, next + 1) {
                    Err(e) => Err(e),
                    Ok((exponent, after)) => Ok((make_node(base, Operator::Pow, exponent), after)),
                }
            } else {
                Ok((base, next))
            }
        },
    }
}

fn product_operator(token: &Token) -> (r: Option<Operator>)
    ensures
        match r {
            Some(op) => token@.token_kind == TokenKindView::Op(op) && is_product_operator(op),
            None => !(token@.token_kind is Op && is_product_operator(token@.token_kind->Op_0)),
        },
{
    match token.token_kind {
        TokenKind::Op(Operator::Mul) => Some(Operator::Mul),
        TokenKind::Op(Operator::Div) => Some(Operator::Div),
        TokenKind::Op(Operator::Mod) => Some(Operator::Mod),
        TokenKind::Op(Operator::FDiv) => Some(Operator::FDiv),
        _ => None,
    }
}

fn sum_operator(token: &Token) -> (r: Option<Operator>)
    ensures
        match r {
            Some(op) => token@.token_kind == TokenKindView::Op(op) && is_sum_operator(op),
            None => !(token@.token_kind is Op && is_sum_operator(token@.token_kind->Op_0)),
        },
{
    match token.token_kind {
        TokenKind::Op(Operator::Add) => Some(Operator::Add),
        TokenKind::Op(Operator::Sub) => Some(Operator::Sub),
        _ => None,
    }
}

/// Parses a product.
fn term(tokens: &Calculation, pos: usize) -> (r: Result<(Expr, usize), Error>)
    requires
        pos <= tokens.len(),
    ensures
        parsed_view(r) == parse_term(tokens.deep_view(), pos as int),
        r is Ok ==> pos < r->Ok_0.1 <= tokens.len(),
    decreases tokens.len() - pos, 3int,
{
    let ghost t = tokens.deep_view();
    let (first, start) = match power(tokens, pos) {
        Err(e) => {
            return Err(e);
        },
        Ok(found) => found,
    };
    let mut left = first;
    let mut at = start;
    loop
        invariant
            t == tokens.deep_view(),
            pos < at <= tokens.len(),
            parse_term(t, pos as int) == parse_term_rest(t, left@, at as int),
        decreases tokens.len() - at,
    {
        if at >= tokens.len() {
            return Ok((left, at));
        }
        let right_at = match product_operator(&tokens[at]) {
            Some(_) => at + 1,
            None => {
                if operand_start(&tokens[at]) {
                    at
                } else {
                    return Ok((left, at));
                }
            },
        };
        let op = match product_operator(&tokens[at]) {
            Some(op) => op,
            None => Operator::Mul,
        };
        match power(tokens, right_at) {
            Err(e) => {
                return Err(e);
            },
            Ok((right, next)) => {
                left = make_node(left, op, right);
                at = next;
            },
        }
    }
}

/// Parses an expression.
fn expr(tokens: &Calculation, pos: usize) -> (r: Result<(Expr, usize), Error>)
    requires
        pos <= tokens.len(),
    ensures
        parsed_view(r) == parse_expr(tokens.deep_view(), pos as int),
        r is Ok ==> pos < r->Ok_0.1 <= tokens.len(),
    decreases tokens.len() - pos, 4int,
{
    let ghost t = tokens.deep_view();
    let (first, start) = match term(tokens, pos) {
        Err(e) => {
            return Err(e);
        },
        Ok(found) => found,
    };
    let mut left = first;
    let mut at = start;
    loop
        invariant
            t == tokens.deep_view(),
            pos < at <= tokens.len(),
            parse_expr(t, pos as int) == parse_expr_rest(t, left@, at as int),
        decreases tokens.len() - at,
    {
        if at >= tokens.len() {
            return Ok((left, at));
        }
        let op = match sum_operator(&tokens[at]) {
            Some(op) => op,
            None => {
                return Ok((left, at));
            },
        };
        match term(tokens, at + 1) {
            Err(e) => {
                return Err(e);
            },
            Ok((right, next)) => {
                left = make_node(left, op, right);
                at = next;
            },
        }
    }
}

/// Parses a whole token sequence into one expression.
pub fn parse_tokens(tokens: &Calculation) -> (r: Result<Expr, Vec<Error>>)
    ensures
        parse_result_view(r) == parse_spec(tokens.deep_view()),
{
    let found = match expr(tokens, 0) {
        Err(e) => Err(e),
        Ok((tree, next)) => {
            if next < tokens.len() {
                Err(unexpected_token(&tokens[next]))
            } else {
                Ok(tree)
            }
        },
    };
    match found {
        Ok(tree) => Ok(tree),
        Err(e) => {
            let mut errors: Vec<Error> = Vec::new();
            errors.push(e);
            assert(errors.deep_view() =~= seq![e@]);
            Err(errors)
        },
    }
}

} // verus!
