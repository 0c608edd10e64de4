//! Laws of validation and of the grammar.

use super::grammar::{
    call_bracket, is_product_operator, is_sum_operator, node, parse_expr, parse_expr_rest,
    parse_power, parse_primary, parse_spec, parse_term, parse_term_rest, starts_operand,
};
use crate::ast::consts::Const;
use crate::ast::function::FunctionKind;
use super::validate::{fold_minus, negate, scope_run, scoping_errors};
use crate::ast::expr::ExprView;
use crate::ast::token::operator::Operator;
use crate::ast::token::{TokenKindView, TokenView};
use crate::maph_error::ErrorView;
use vstd::prelude::*;

verus! {

/// The number token `t` negated `k` times.
pub open spec fn negated_times(t: TokenView, k: nat) -> TokenView {
    if k % 2 == 1 {
        negate(t)
    } else {
        t
    }
}

/// A run of minus signs before a number folds into the number alone,
/// negated once for each sign: an odd number of signs changes its sign, an
/// even number leaves it.
pub proof fn lemma_fold_run_of_minus(signs: Seq<TokenView>, number: TokenView)
    requires
        forall|i: int|
            0 <= i < signs.len() ==> (#[trigger] signs[i]).token_kind == TokenKindView::Op(
                Operator::Sub,
            ),
        number.token_kind is Number,
    ensures
        fold_minus(signs.push(number)) == seq![negated_times(number, signs.len())],
    decreases signs.len(),
{
    let t = signs.push(number);
    if signs.len() == 0 {
        assert(t.skip(1) =~= Seq::empty());
        assert(fold_minus(t.skip(1)) =~= Seq::empty());
        assert(fold_minus(t) =~= seq![number]);
    } else {
        let fewer = signs.skip(1);
        assert(t.skip(1) =~= fewer.push(number));
        lemma_fold_run_of_minus(fewer, number);
        let rest = fold_minus(t.skip(1));
        assert(rest == seq![negated_times(number, fewer.len())]);
        assert(rest[0].token_kind is Number);
        assert(t[0] == signs[0]);
        assert(fold_minus(t) =~= seq![negate(rest[0])]);
        assert(negate(negate(number)) == number);
    }
}

/// After folding, no minus sign stands directly before a number.
pub proof fn lemma_fold_leaves_no_minus_before_number(t: Seq<TokenView>, k: int)
    requires
        0 <= k < fold_minus(t).len() - 1,
        fold_minus(t)[k].token_kind == TokenKindView::Op(Operator::Sub),
    ensures
        !(fold_minus(t)[k + 1].token_kind is Number),
    decreases t.len(),
{
    if t.len() > 0 {
        let rest = fold_minus(t.skip(1));
        let folded = fold_minus(t);
        if t[0].token_kind == TokenKindView::Op(Operator::Sub) && rest.len() > 0
            && rest[0].token_kind is Number {
            assert(folded =~= seq![negate(rest[0])] + rest.skip(1));
            assert(folded[k] == rest[k]);
            assert(folded[k + 1] == rest[k + 1]);
            lemma_fold_leaves_no_minus_before_number(t.skip(1), k);
        } else {
            assert(folded =~= seq![t[0]] + rest);
            assert(folded[k + 1] == rest[k]);
            if k > 0 {
                assert(folded[k] == rest[k - 1]);
                lemma_fold_leaves_no_minus_before_number(t.skip(1), k - 1);
            }
        }
    }
}

/// How many more brackets were opened than closed among the first `n`
/// tokens.
pub open spec fn depth(t: Seq<TokenView>, n: int) -> int
    decreases n,
{
    if n <= 0 {
        0
    } else {
        depth(t, n - 1) + match t[n - 1].token_kind {
            TokenKindView::LBrack => 1int,
            TokenKindView::RBrack => -1int,
            _ => 0int,
        }
    }
}

/// While no closing bracket has come too early, the brackets that stand
/// open are as many as the depth, and the depth was never negative; a
/// closing bracket comes too early exactly where the depth falls below zero.
pub proof fn lemma_scope_run_counts(t: Seq<TokenView>, n: int)
    requires
        0 <= n <= t.len(),
    ensures
        match scope_run(t, n) {
            Ok(open) => open.len() == depth(t, n) && forall|m: int|
                0 <= m <= n ==> depth(t, m) >= 0,
            Err(_) => exists|m: int| 0 <= m <= n && depth(t, m) < 0,
        },
    decreases n,
{
    if n > 0 {
        lemma_scope_run_counts(t, n - 1);
        match scope_run(t, n - 1) {
            Ok(open) => {
                if scope_run(t, n) is Err {
                    assert(depth(t, n) < 0);
                }
            },
            Err(_) => {
                let m = choose|m: int| 0 <= m <= n - 1 && depth(t, m) < 0;
                assert(0 <= m <= n && depth(t, m) < 0);
            },
        }
    }
}

/// The brackets of a sequence pass the check exactly when they are
/// balanced: no closing bracket comes before its opening bracket, and as
/// many are closed as are opened.
pub proof fn lemma_scoping_accepts_balanced(t: Seq<TokenView>)
    ensures
        scoping_errors(t).len() == 0 <==> (depth(t, t.len() as int) == 0 && forall|m: int|
            0 <= m <= t.len() ==> depth(t, m) >= 0),
{
    lemma_scope_run_counts(t, t.len() as int);
}

/// An operand is made from at least one token and ends inside the input.
pub proof fn lemma_primary_advances(t: Seq<TokenView>, pos: int)
    requires
        0 <= pos <= t.len(),
    ensures
        parse_primary(t, pos) is Ok ==> pos < parse_primary(t, pos)->Ok_0.1 <= t.len(),
    decreases t.len() - pos, 0int,
{
    if pos < t.len() {
        match t[pos].token_kind {
            TokenKindView::Ident(name) => {
                if Const::of_name(name, t[pos].span) is None && FunctionKind::of_name(name)
                    is Some {
                    match call_bracket(t, pos, FunctionKind::of_name(name)->0) {
                        Some(open) => {
                            lemma_expr_advances(t, open + 1);
                        },
                        None => {},
                    }
                }
            },
            TokenKindView::LBrack => {
                lemma_expr_advances(t, pos + 1);
            },
            _ => {},
        }
    }
}

/// A power is made from at least one token and ends inside the input.
pub proof fn lemma_power_advances(t: Seq<TokenView>, pos: int)
    requires
        0 <= pos <= t.len(),
    ensures
        parse_power(t, pos) is Ok ==> pos < parse_power(t, pos)->Ok_0.1 <= t.len(),
    decreases t.len() - pos, 1int,
{
    lemma_primary_advances(t, pos);
    match parse_primary(t, pos) {
        Ok((_, next)) => {
            if next < t.len() {
                lemma_power_advances(t, next + 1);
            }
        },
        Err(_) => {},
    }
}

/// What follows the first operand of a product ends inside the input.
pub proof fn lemma_term_rest_advances(t: Seq<TokenView>, left: ExprView, pos: int)
    requires
        0 <= pos <= t.len(),
    ensures
        parse_term_rest(t, left, pos) is Ok ==> pos <= parse_term_rest(t, left, pos)->Ok_0.1
            <= t.len(),
    decreases t.len() - pos, 2int,
{
    if pos < t.len() {
        if t[pos].token_kind is Op && is_product_operator(t[pos].token_kind->Op_0) {
            lemma_power_advances(t, pos + 1);
            match parse_power(t, pos + 1) {
                Ok((right, next)) => {
                    lemma_term_rest_advances(
                        t,
                        node(left, t[pos].token_kind->Op_0, right),
                        next,
                    );
                },
                Err(_) => {},
            }
        } else if starts_operand(t[pos]) {
            lemma_power_advances(t, pos);
            match parse_power(t, pos) {
                Ok((right, next)) => {
                    lemma_term_rest_advances(t, node(left, Operator::Mul, right), next);
                },
                Err(_) => {},
            }
        }
    }
}

/// A product is made from at least one token and ends inside the input.
pub proof fn lemma_term_advances(t: Seq<TokenView>, pos: int)
    requires
        0 <= pos <= t.len(),
    ensures
        parse_term(t, pos) is Ok ==> pos < parse_term(t, pos)->Ok_0.1 <= t.len(),
    decreases t.len() - pos, 3int,
{
    lemma_power_advances(t, pos);
    match parse_power(t, pos) {
        Ok((left, next)) => {
            lemma_term_rest_advances(t, left, next);
        },
        Err(_) => {},
    }
}

/// What follows the first operand of a sum ends inside the input.
pub proof fn lemma_expr_rest_advances(t: Seq<TokenView>, left: ExprView, pos: int)
    requires
        0 <= pos <= t.len(),
    ensures
        parse_expr_rest(t, left, pos) is Ok ==> pos <= parse_expr_rest(t, left, pos)->Ok_0.1
            <= t.len(),
    decreases t.len() - pos, 4int,
{
    if pos < t.len() && t[pos].token_kind is Op && is_sum_operator(t[pos].token_kind->Op_0) {
        lemma_term_advances(t, pos + 1);
        match parse_term(t, pos + 1) {
            Ok((right, next)) => {
                lemma_expr_rest_advances(t, node(left, t[pos].token_kind->Op_0, right), next);
            },
            Err(_) => {},
        }
    }
}

/// An expression is made from at least one token and ends inside the
/// input: the parser never stands still.
pub proof fn lemma_expr_advances(t: Seq<TokenView>, pos: int)
    requires
        0 <= pos <= t.len(),
    ensures
        parse_expr(t, pos) is Ok ==> pos < parse_expr(t, pos)->Ok_0.1 <= t.len(),
    decreases t.len() - pos, 5int,
{
    lemma_term_advances(t, pos);
    match parse_term(t, pos) {
        Ok((left, next)) => {
            lemma_expr_rest_advances(t, left, next);
        },
        Err(_) => {},
    }
}

/// The tree of a number token.
pub open spec fn number_tree(t: TokenView) -> ExprView {
    ExprView::Number(t.token_kind->Number_0, t.span)
}

/// A number that is directly followed by an operand which reaches to the
/// end of the input is multiplied with it.
pub proof fn lemma_implicit_multiplication(t: Seq<TokenView>, right: ExprView)
    requires
        t.len() >= 2,
        t[0].token_kind is Number,
        starts_operand(t[1]),
        parse_power(t, 1) == Ok::<(ExprView, int), ErrorView>((right, t.len() as int)),
    ensures
        parse_spec(t) == Ok::<ExprView, Seq<ErrorView>>(
            node(number_tree(t[0]), Operator::Mul, right),
        ),
{
    let left = number_tree(t[0]);
    let product = node(left, Operator::Mul, right);
    let end = t.len() as int;
    assert(parse_primary(t, 0) == Ok::<(ExprView, int), ErrorView>((left, 1)));
    assert(parse_power(t, 0) == Ok::<(ExprView, int), ErrorView>((left, 1)));
    assert(parse_term_rest(t, product, end) == Ok::<(ExprView, int), ErrorView>((product, end)));
    assert(parse_term_rest(t, left, 1) == Ok::<(ExprView, int), ErrorView>((product, end)));
    assert(parse_term(t, 0) == Ok::<(ExprView, int), ErrorView>((product, end)));
    assert(parse_expr_rest(t, product, end) == Ok::<(ExprView, int), ErrorView>((product, end)));
    assert(parse_expr(t, 0) == Ok::<(ExprView, int), ErrorView>((product, end)));
}

/// How tightly an operator binds: sums least, then products, then powers.
pub open spec fn rank(op: Operator) -> int {
    match op {
        Operator::Add | Operator::Sub => 1,
        Operator::Mul | Operator::Div | Operator::Mod | Operator::FDiv => 2,
        Operator::Pow => 3,
    }
}

/// Whether, of two operators between three operands, the second is applied
/// first: it binds more tightly than the first, or both are powers.
pub open spec fn groups_right(first: Operator, second: Operator) -> bool {
    rank(second) > rank(first) || (first == Operator::Pow && second == Operator::Pow)
}

/// The token of an operator.
pub open spec fn operator_token(op: Operator, span: usize) -> TokenView {
    TokenView { token_kind: TokenKindView::Op(op), span }
}

/// Three numbers joined by two operators group by rank: the operator that
/// binds more tightly is applied first, operators of one rank from left to
/// right, and powers from right to left.
pub proof fn lemma_precedence(
    a: TokenView,
    first: Operator,
    at_first: usize,
    b: TokenView,
    second: Operator,
    at_second: usize,
    c: TokenView,
)
    requires
        a.token_kind is Number,
        b.token_kind is Number,
        c.token_kind is Number,
    ensures
        parse_spec(
            seq![a, operator_token(first, at_first), b, operator_token(second, at_second), c],
        ) == Ok::<ExprView, Seq<ErrorView>>(
            if groups_right(first, second) {
                node(number_tree(a), first, node(number_tree(b), second, number_tree(c)))
            } else {
                node(node(number_tree(a), first, number_tree(b)), second, number_tree(c))
            },
        ),
{
    let t = seq![a, operator_token(first, at_first), b, operator_token(second, at_second), c];
    let x = number_tree(a);
    let y = number_tree(b);
    let z = number_tree(c);
    assert(t.len() == 5);
    assert(t[0] == a && t[1] == operator_token(first, at_first) && t[2] == b && t[3]
        == operator_token(second, at_second) && t[4] == c);
    assert(parse_primary(t, 0) == Ok::<(ExprView, int), ErrorView>((x, 1)));
    assert(parse_primary(t, 2) == Ok::<(ExprView, int), ErrorView>((y, 3)));
    assert(parse_primary(t, 4) == Ok::<(ExprView, int), ErrorView>((z, 5)));
    assert(parse_power(t, 4) == Ok::<(ExprView, int), ErrorView>((z, 5)));
    assert(parse_term(t, 4) == Ok::<(ExprView, int), ErrorView>((z, 5))) by {
        assert(parse_term_rest(t, z, 5) == Ok::<(ExprView, int), ErrorView>((z, 5)));
    }
    if second == Operator::Pow {
        let yz = node(y, second, z);
        assert(parse_power(t, 2) == Ok::<(ExprView, int), ErrorView>((yz, 5)));
        if first == Operator::Pow {
            let all = node(x, first, yz);
            assert(parse_power(t, 0) == Ok::<(ExprView, int), ErrorView>((all, 5)));
            assert(parse_term_rest(t, all, 5) == Ok::<(ExprView, int), ErrorView>((all, 5)));
            assert(parse_term(t, 0) == Ok::<(ExprView, int), ErrorView>((all, 5)));
            assert(parse_expr_rest(t, all, 5) == Ok::<(ExprView, int), ErrorView>((all, 5)));
            assert(parse_expr(t, 0) == Ok::<(ExprView, int), ErrorView>((all, 5)));
        } else if rank(first) == 2 {
            let all = node(x, first, yz);
            assert(parse_power(t, 0) == Ok::<(ExprView, int), ErrorView>((x, 1)));
            assert(parse_term_rest(t, all, 5) == Ok::<(ExprView, int), ErrorView>((all, 5)));
            assert(parse_term_rest(t, x, 1) == Ok::<(ExprView, int), ErrorView>((all, 5)));
            assert(parse_term(t, 0) == Ok::<(ExprView, int), ErrorView>((all, 5)));
            assert(parse_expr_rest(t, all, 5) == Ok::<(ExprView, int), ErrorView>((all, 5)));
            assert(parse_expr(t, 0) == Ok::<(ExprView, int), ErrorView>((all, 5)));
        } else {
            let all = node(x, first, yz);
            assert(parse_power(t, 0) == Ok::<(ExprView, int), ErrorView>((x, 1)));
            assert(parse_term_rest(t, x, 1) == Ok::<(ExprView, int), ErrorView>((x, 1)));
            assert(parse_term(t, 0) == Ok::<(ExprView, int), ErrorView>((x, 1)));
            assert(parse_term_rest(t, yz, 5) == Ok::<(ExprView, int), ErrorView>((yz, 5)));
            assert(parse_term(t, 2) == Ok::<(ExprView, int), ErrorView>((yz, 5)));
            assert(parse_expr_rest(t, all, 5) == Ok::<(ExprView, int), ErrorView>((all, 5)));
            assert(parse_expr_rest(t, x, 1) == Ok::<(ExprView, int), ErrorView>((all, 5)));
            assert(parse_expr(t, 0) == Ok::<(ExprView, int), ErrorView>((all, 5)));
        }
    } else {
        assert(parse_power(t, 2) == Ok::<(ExprView, int), ErrorView>((y, 3)));
        if first == Operator::Pow {
            let xy = node(x, first, y);
            let all = node(xy, second, z);
            assert(parse_power(t, 0) == Ok::<(ExprView, int), ErrorView>((xy, 3)));
            if rank(second) == 2 {
                assert(parse_term_rest(t, all, 5) == Ok::<(ExprView, int), ErrorView>((all, 5)));
                assert(parse_term_rest(t, xy, 3) == Ok::<(ExprView, int), ErrorView>((all, 5)));
                assert(parse_term(t, 0) == Ok::<(ExprView, int), ErrorView>((all, 5)));
                assert(parse_expr_rest(t, all, 5) == Ok::<(ExprView, int), ErrorView>((all, 5)));
            } else {
                assert(parse_term_rest(t, xy, 3) == Ok::<(ExprView, int), ErrorView>((xy, 3)));
                assert(parse_term(t, 0) == Ok::<(ExprView, int), ErrorView>((xy, 3)));
                assert(parse_expr_rest(t, all, 5) == Ok::<(ExprView, int), ErrorView>((all, 5)));
                assert(parse_expr_rest(t, xy, 3) == Ok::<(ExprView, int), ErrorView>((all, 5)));
            }
            assert(parse_expr(t, 0) == Ok::<(ExprView, int), ErrorView>((all, 5)));
        } else if rank(first) == 2 {
            assert(parse_power(t, 0) == Ok::<(ExprView, int), ErrorView>((x, 1)));
            let xy = node(x, first, y);
            let all = node(xy, second, z);
            if rank(second) == 2 {
                assert(parse_term_rest(t, all, 5) == Ok::<(ExprView, int), ErrorView>((all, 5)));
                assert(parse_term_rest(t, xy, 3) == Ok::<(ExprView, int), ErrorView>((all, 5)));
                assert(parse_term_rest(t, x, 1) == Ok::<(ExprView, int), ErrorView>((all, 5)));
                assert(parse_term(t, 0) == Ok::<(ExprView, int), ErrorView>((all, 5)));
                assert(parse_expr_rest(t, all, 5) == Ok::<(ExprView, int), ErrorView>((all, 5)));
            } else {
                assert(parse_term_rest(t, xy, 3) == Ok::<(ExprView, int), ErrorView>((xy, 3)));
                assert(parse_term_rest(t, x, 1) == Ok::<(ExprView, int), ErrorView>((xy, 3)));
                assert(parse_term(t, 0) == Ok::<(ExprView, int), ErrorView>((xy, 3)));
                assert(parse_expr_rest(t, all, 5) == Ok::<(ExprView, int), ErrorView>((all, 5)));
                assert(parse_expr_rest(t, xy, 3) == Ok::<(ExprView, int), ErrorView>((all, 5)));
            }
            assert(parse_expr(t, 0) == Ok::<(ExprView, int), ErrorView>((all, 5)));
        } else {
            assert(parse_power(t, 0) == Ok::<(ExprView, int), ErrorView>((x, 1)));
            assert(parse_term_rest(t, x, 1) == Ok::<(ExprView, int), ErrorView>((x, 1)));
            assert(parse_term(t, 0) == Ok::<(ExprView, int), ErrorView>((x, 1)));
            if rank(second) == 2 {
                let yz = node(y, second, z);
                let all = node(x, first, yz);
                assert(parse_term_rest(t, yz, 5) == Ok::<(ExprView, int), ErrorView>((yz, 5)));
                assert(parse_term_rest(t, y, 3) == Ok::<(ExprView, int), ErrorView>((yz, 5)));
                assert(parse_term(t, 2) == Ok::<(ExprView, int), ErrorView>((yz, 5)));
                assert(parse_expr_rest(t, all, 5) == Ok::<(ExprView, int), ErrorView>((all, 5)));
                assert(parse_expr_rest(t, x, 1) == Ok::<(ExprView, int), ErrorView>((all, 5)));
                assert(parse_expr(t, 0) == Ok::<(ExprView, int), ErrorView>((all, 5)));
            } else {
                let xy = node(x, first, y);
                let all = node(xy, second, z);
                assert(parse_term_rest(t, y, 3) == Ok::<(ExprView, int), ErrorView>((y, 3)));
                assert(parse_term(t, 2) == Ok::<(ExprView, int), ErrorView>((y, 3)));
                assert(parse_expr_rest(t, all, 5) == Ok::<(ExprView, int), ErrorView>((all, 5)));
                assert(parse_expr_rest(t, xy, 3) == Ok::<(ExprView, int), ErrorView>((all, 5)));
                assert(parse_expr_rest(t, x, 1) == Ok::<(ExprView, int), ErrorView>((all, 5)));
                assert(parse_expr(t, 0) == Ok::<(ExprView, int), ErrorView>((all, 5)));
            }
        }
    }
}

} // verus!
