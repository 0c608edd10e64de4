//! The checks that a token sequence passes before it is parsed, and the
//! rewriting that folds minus signs into the numbers behind them.

use crate::ast::consts::Const;
use crate::ast::function::FunctionKind;
use crate::ast::token::number::DecimalView;
use crate::ast::token::operator::Operator;
use crate::ast::token::{Calculation, Token, TokenKind, TokenKindView, TokenView};
use crate::maph_error::{Error, ErrorKinds, ErrorKindsView, ErrorView};
use crate::views::{lemma_deep_view_push, one};
use vstd::prelude::*;

verus! {

/// What a check returns for a list of errors: `Ok` where the list is empty,
/// else the whole list.
pub open spec fn reports(r: Result<(), Vec<Error>>, errors: Seq<ErrorView>) -> bool {
    match r {
        Ok(_) => errors.len() == 0,
        Err(found) => found.deep_view() == errors && errors.len() > 0,
    }
}

/// The offsets of the brackets that stand open after the first `n` tokens,
/// outermost first; or the offset of the first closing bracket that found
/// none open.
pub open spec fn scope_run(t: Seq<TokenView>, n: int) -> Result<Seq<usize>, usize>
    decreases n,
{
    if n <= 0 {
        Ok(Seq::empty())
    } else {
        match scope_run(t, n - 1) {
            Err(at) => Err(at),
            Ok(open) => match t[n - 1].token_kind {
                TokenKindView::LBrack => Ok(open.push(t[n - 1].span)),
                TokenKindView::RBrack => if open.len() == 0 {
                    Err(t[n - 1].span)
                } else {
                    Ok(open.drop_last())
                },
                _ => Ok(open),
            },
        }
    }
}

/// The error of the brackets of `t`, if they do not match: the first closing
/// bracket with none open, or else all the brackets left open.
pub open spec fn scoping_errors(t: Seq<TokenView>) -> Seq<ErrorView> {
    match scope_run(t, t.len() as int) {
        Err(at) => seq![ErrorView { kind: ErrorKindsView::UnexeptedBrack, span: seq![at] }],
        Ok(open) => if open.len() > 0 {
            seq![ErrorView { kind: ErrorKindsView::UnclosedBrack, span: open }]
        } else {
            Seq::empty()
        },
    }
}

/// The token at `k` is the first of two or more operators in a row.
pub open spec fn starts_operator_run(t: Seq<TokenView>, k: int) -> bool {
    &&& 0 <= k
    &&& k + 1 < t.len()
    &&& t[k].token_kind is Op
    &&& t[k + 1].token_kind is Op
    &&& (k == 0 || !(t[k - 1].token_kind is Op))
}

/// One error for each run of two or more operators that starts before the
/// index `n`: it names the first operator of the run and its offset.
pub open spec fn operator_errors(t: Seq<TokenView>, n: int) -> Seq<ErrorView>
    decreases n,
{
    if n <= 0 {
        Seq::empty()
    } else if starts_operator_run(t, n - 1) {
        operator_errors(t, n - 1).push(
            ErrorView {
                kind: ErrorKindsView::UnexeptedOperator(t[n - 1].token_kind->Op_0),
                span: seq![t[n - 1].span],
            },
        )
    } else {
        operator_errors(t, n - 1)
    }
}

/// An identifier that may stand in an expression: the name of a function,
/// letter for letter, or the name of a constant in any case.
pub open spec fn is_known_name(name: Seq<char>) -> bool {
    FunctionKind::of_name(name) is Some || Const::of_name(name, 0) is Some
}

/// One error for each identifier among the first `n` tokens that is not a
/// known name, with the identifier and its offset.
pub open spec fn name_errors(t: Seq<TokenView>, n: int) -> Seq<ErrorView>
    decreases n,
{
    if n <= 0 {
        Seq::empty()
    } else {
        match t[n - 1].token_kind {
            TokenKindView::Ident(name) => if is_known_name(name) {
                name_errors(t, n - 1)
            } else {
                name_errors(t, n - 1).push(
                    ErrorView {
                        kind: ErrorKindsView::UnknowFonction(name),
                        span: seq![t[n - 1].span],
                    },
                )
            },
            _ => name_errors(t, n - 1),
        }
    }
}

/// The number token `t` with the opposite sign.
pub open spec fn negate(t: TokenView) -> TokenView {
    match t.token_kind {
        TokenKindView::Number(d) => TokenView {
            token_kind: TokenKindView::Number(
                DecimalView { negative: !d.negative, text: d.text },
            ),
            span: t.span,
        },
        _ => t,
    }
}

/// `t` with every minus sign that stands directly before a number, or
/// before minus signs that do, removed, and that number negated once for
/// each sign removed.
pub open spec fn fold_minus(t: Seq<TokenView>) -> Seq<TokenView>
    decreases t.len(),
{
    if t.len() == 0 {
        Seq::empty()
    } else {
        let rest = fold_minus(t.skip(1));
        if t[0].token_kind == TokenKindView::Op(Operator::Sub) && rest.len() > 0
            && rest[0].token_kind is Number {
            seq![negate(rest[0])] + rest.skip(1)
        } else {
            seq![t[0]] + rest
        }
    }
}

/// Every error that validation finds in `t`: of its brackets, then of the
/// operators and of the names of the folded sequence.
pub open spec fn validation_errors(t: Seq<TokenView>) -> Seq<ErrorView> {
    let folded = fold_minus(t);
    scoping_errors(t) + operator_errors(folded, folded.len() as int) + name_errors(
        folded,
        folded.len() as int,
    )
}

/// The result of validation: the folded sequence where no check fails, else
/// every error.
pub open spec fn pre_parse_spec(t: Seq<TokenView>) -> Result<Seq<TokenView>, Seq<ErrorView>> {
    if validation_errors(t).len() == 0 {
        Ok(fold_minus(t))
    } else {
        Err(validation_errors(t))
    }
}

fn one_error(e: Error) -> (r: Vec<Error>)
    ensures
        r.deep_view() == seq![e@],
{
    let mut v: Vec<Error> = Vec::new();
    v.push(e);
    assert(v.deep_view() =~= seq![e@]);
    v
}

fn report(errors: Vec<Error>) -> (r: Result<(), Vec<Error>>)
    ensures
        reports(r, errors.deep_view()),
{
    if errors.len() == 0 {
        Ok(())
    } else {
        Err(errors)
    }
}

/// Checks that the brackets of `tokens` match.
pub fn check_scoping(tokens: &Calculation) -> (r: Result<(), Vec<Error>>)
    ensures
        reports(r, scoping_errors(tokens.deep_view())),
{
    let ghost t = tokens.deep_view();
    let mut open: Vec<usize> = Vec::new();
    let mut i: usize = 0;
    while i < tokens.len()
        invariant
            i <= tokens.len(),
            t == tokens.deep_view(),
            scope_run(t, i as int) == Ok::<Seq<usize>, usize>(open@),
        decreases tokens.len() - i,
    {
        let token = &tokens[i];
        assert(t[i as int] == token@);
        match token.token_kind {
            TokenKind::LBrack => {
                open.push(token.span);
            },
            TokenKind::RBrack => {
                if open.len() == 0 {
                    proof {
                        lemma_scope_error_stays(t, i + 1, t.len() as int);
                    }
                    let e = Error::new(ErrorKinds::UnexeptedBrack, one(token.span));
                    return Err(one_error(e));
                }
                open.pop();
            },
            _ => {},
        }
        i += 1;
    }
    if open.len() > 0 {
        Err(one_error(Error::new(ErrorKinds::UnclosedBrack, open)))
    } else {
        Ok(())
    }
}

/// Once a closing bracket has found none open, that error is the result.
pub proof fn lemma_scope_error_stays(t: Seq<TokenView>, n: int, m: int)
    requires
        0 <= n <= m,
        scope_run(t, n) is Err,
    ensures
        scope_run(t, m) == scope_run(t, n),
    decreases m - n,
{
    if n < m {
        lemma_scope_error_stays(t, n, m - 1);
    }
}

/// Checks that no two operators of `tokens` stand in a row.
pub fn check_operators(tokens: &Calculation) -> (r: Result<(), Vec<Error>>)
    ensures
        reports(r, operator_errors(tokens.deep_view(), tokens.len() as int)),
{
    let ghost t = tokens.deep_view();
    let mut errors: Vec<Error> = Vec::new();
    let mut i: usize = 0;
    assert(errors.deep_view() =~= Seq::empty());
    while i < tokens.len()
        invariant
            i <= tokens.len(),
            t == tokens.deep_view(),
            errors.deep_view() == operator_errors(t, i as int),
        decreases tokens.len() - i,
    {
        assert(t[i as int] == tokens[i as int]@);
        match tokens[i].token_kind {
            TokenKind::Op(op) => {
                if i + 1 < tokens.len() && is_operator(&tokens[i + 1]) && (i == 0 || !is_operator(
                    &tokens[i - 1],
                )) {
                    assert(t[i + 1] == tokens[i + 1]@);
                    let e = Error::new(
                        ErrorKinds::UnexeptedOperator(op),
                        one(tokens[i].span),
                    );
                    proof {
                        lemma_deep_view_push(errors@, e);
                    }
                    errors.push(e);
                } else {
                    assert(i + 1 < t.len() ==> t[i + 1] == tokens[i + 1]@);
                    assert(i > 0 ==> t[i - 1] == tokens[i - 1]@);
                }
            },
            _ => {},
        }
        i += 1;
    }
    report(errors)
}

fn is_operator(token: &Token) -> (r: bool)
    ensures
        r == (token@.token_kind is Op),
{
    match token.token_kind {
        TokenKind::Op(_) => true,
        _ => false,
    }
}

fn is_number(token: &Token) -> (r: bool)
    ensures
        r == (token@.token_kind is Number),
{
    match token.token_kind {
        TokenKind::Number(_) => true,
        _ => false,
    }
}

/// Whether `name` names a function or a constant.
pub fn known_name(name: &str) -> (r: bool)
    ensures
        r == is_known_name(name@),
{
    match FunctionKind::from_name(name) {
        Some(_) => true,
        None => {
            let c = Const::from_name(name, 0);
            c.is_some()
        },
    }
}

/// Checks that every identifier of `tokens` is a known name.
pub fn check_names(tokens: &Calculation) -> (r: Result<(), Vec<Error>>)
    ensures
        reports(r, name_errors(tokens.deep_view(), tokens.len() as int)),
{
    let ghost t = tokens.deep_view();
    let mut errors: Vec<Error> = Vec::new();
    let mut i: usize = 0;
    assert(errors.deep_view() =~= Seq::empty());
    while i < tokens.len()
        invariant
            i <= tokens.len(),
            t == tokens.deep_view(),
            errors.deep_view() == name_errors(t, i as int),
        decreases tokens.len() - i,
    {
        assert(t[i as int] == tokens[i as int]@);
        match &tokens[i].token_kind {
            TokenKind::Ident(name) => {
                if !known_name(name.as_str()) {
                    let e = Error::new(
                        ErrorKinds::UnknowFonction(name.clone()),
                        one(tokens[i].span),
                    );
                    proof {
                        lemma_deep_view_push(errors@, e);
                    }
                    errors.push(e);
                }
            },
            _ => {},
        }
        i += 1;
    }
    report(errors)
}

fn is_minus(token: &Token) -> (r: bool)
    ensures
        r == (token@.token_kind == TokenKindView::Op(Operator::Sub)),
{
    match token.token_kind {
        TokenKind::Op(Operator::Sub) => true,
        _ => false,
    }
}

fn negate_token(token: Token) -> (r: Token)
    ensures
        r@ == negate(token@),
{
    let Token { token_kind, span } = token;
    match token_kind {
        TokenKind::Number(d) => Token::new(TokenKind::Number(d.negated()), span),
        other => Token::new(other, span),
    }
}

/// Folds the minus signs of `tokens` into the numbers behind them.
pub fn fold_minus_signs(tokens: &mut Calculation)
    ensures
        final(tokens).deep_view() == fold_minus(old(tokens).deep_view()),
{
    let ghost orig = tokens.deep_view();
    let mut rev: Vec<Token> = Vec::new();
    assert(orig.skip(orig.len() as int) =~= Seq::empty());
    while tokens.len() > 0
        invariant
            tokens.len() <= orig.len(),
            tokens.deep_view() == orig.take(tokens.len() as int),
            rev.len() == fold_minus(orig.skip(tokens.len() as int)).len(),
            forall|j: int|
                0 <= j < rev.len() ==> (#[trigger] rev[j])@ == fold_minus(
                    orig.skip(tokens.len() as int),
                )[rev.len() - 1 - j],
        decreases tokens.len(),
    {
        let ghost i = tokens.len() as int;
        let ghost folded = fold_minus(orig.skip(i));
        let ghost stack = rev@;
        let ghost before = tokens@;
        let token = tokens.pop().unwrap();
        assert(tokens.deep_view() =~= orig.take(i - 1)) by {
            assert forall|j: int| 0 <= j < i - 1 implies tokens.deep_view()[j] == orig.take(
                i - 1,
            )[j] by {
                assert(tokens@[j] == before[j]);
                assert(orig.take(i)[j] == before[j]@);
            }
        }
        assert(token@ == orig[i - 1]) by {
            assert(orig.take(i)[i - 1] == before[i - 1]@);
        }
        assert(orig.skip(i - 1).skip(1) =~= orig.skip(i));
        assert(orig.skip(i - 1)[0] == orig[i - 1]);
        let ghost next = fold_minus(orig.skip(i - 1));
        if is_minus(&token) && rev.len() > 0 && is_number(&rev[rev.len() - 1]) {
            let top = rev.pop().unwrap();
            assert(top@ == folded[0]);
            let negated = negate_token(top);
            rev.push(negated);
            assert(next =~= seq![negate(folded[0])] + folded.skip(1));
            assert forall|j: int| 0 <= j < rev.len() implies (#[trigger] rev[j])@ == next[rev.len()
                - 1 - j] by {
                if j < rev.len() - 1 {
                    assert(rev[j] == stack[j]);
                }
            }
        } else {
            rev.push(token);
            assert(stack.len() > 0 ==> stack[stack.len() - 1]@ == folded[0]);
            assert(next =~= seq![orig[i - 1]] + folded);
            assert forall|j: int| 0 <= j < rev.len() implies (#[trigger] rev[j])@ == next[rev.len()
                - 1 - j] by {
                if j < rev.len() - 1 {
                    assert(rev[j] == stack[j]);
                }
            }
        }
    }
    assert(orig.skip(0) =~= orig);
    let ghost folded = fold_minus(orig);
    while rev.len() > 0
        invariant
            tokens.len() + rev.len() == folded.len(),
            forall|j: int| 0 <= j < tokens.len() ==> (#[trigger] tokens[j])@ == folded[j],
            forall|j: int|
                0 <= j < rev.len() ==> (#[trigger] rev[j])@ == folded[folded.len() - 1 - j],
        decreases rev.len(),
    {
        let ghost stack = rev@;
        let ghost before = tokens@;
        let token = rev.pop().unwrap();
        tokens.push(token);
        assert forall|j: int| 0 <= j < tokens.len() implies (#[trigger] tokens[j])@
            == folded[j] by {
            if j < tokens.len() - 1 {
                assert(tokens[j] == before[j]);
            } else {
                assert(token == stack[stack.len() - 1]);
            }
        }
        assert forall|j: int| 0 <= j < rev.len() implies (#[trigger] rev[j])@ == folded[folded.len()
            - 1 - j] by {
            assert(rev[j] == stack[j]);
        }
    }
    assert(tokens.deep_view() =~= folded);
}

/// Validates `tokens`: checks the brackets, folds the minus signs, then
/// checks the operators and the names of what is left.
pub fn validate(tokens: Calculation) -> (r: Result<Calculation, Vec<Error>>)
    ensures
        match r {
            Ok(folded) => pre_parse_spec(tokens.deep_view()) == Ok::<
                Seq<TokenView>,
                Seq<ErrorView>,
            >(folded.deep_view()),
            Err(errors) => pre_parse_spec(tokens.deep_view()) == Err::<
                Seq<TokenView>,
                Seq<ErrorView>,
            >(errors.deep_view()),
        },
{
    let ghost given = tokens.deep_view();
    let mut tokens = tokens;
    let mut errors: Vec<Error> = Vec::new();
    assert(errors.deep_view() =~= Seq::empty());
    match check_scoping(&tokens) {
        Err(mut found) => {
            let ghost a = errors.deep_view();
            let ghost b = found.deep_view();
            errors.append(&mut found);
            assert(errors.deep_view() =~= a + b);
        },
        Ok(_) => {},
    }
    fold_minus_signs(&mut tokens);
    match check_operators(&tokens) {
        Err(mut found) => {
            let ghost a = errors.deep_view();
            let ghost b = found.deep_view();
            errors.append(&mut found);
            assert(errors.deep_view() =~= a + b);
        },
        Ok(_) => {},
    }
    match check_names(&tokens) {
        Err(mut found) => {
            let ghost a = errors.deep_view();
            let ghost b = found.deep_view();
            errors.append(&mut found);
            assert(errors.deep_view() =~= a + b);
        },
        Ok(_) => {},
    }
    assert(errors.deep_view() =~= validation_errors(given));
    if errors.len() == 0 {
        Ok(tokens)
    } else {
        Err(errors)
    }
}

} // verus!
