//! The lexer: a machine that reads the normalized stream one character at a
//! time, gathers digits and letters in a buffer, and turns the buffer into a
//! token, or into an error, whenever a character ends it.

use super::laws::lemma_dots_are_the_points;
use super::{classify_spec, is_ident_text, Calculation, Token, TokenKind, TokenView};
use crate::chars::{
    digit, is_digit, is_letter, is_valid_char, letter, valid_char,
};
use crate::maph_error::{Error, ErrorKinds, ErrorKindsView, ErrorView};
use crate::views::lemma_deep_view_push;
use core::str::FromStr;
use vstd::prelude::*;

verus! {

/// What the lexer has read and made so far.
pub struct LexState {
    /// The characters of the token being read, each with its offset.
    pub buffer: Seq<(usize, char)>,
    /// The tokens made so far.
    pub tokens: Seq<TokenView>,
    /// The errors found in buffers and single characters so far.
    pub errors: Seq<ErrorView>,
}

/// The text that a buffer holds.
pub open spec fn text_of(buffer: Seq<(usize, char)>) -> Seq<char> {
    buffer.map_values(|item: (usize, char)| item.1)
}

/// An error of a buffer's text, its distances from the end of the text
/// replaced by the offsets of the characters they point at.
pub open spec fn located(e: ErrorView, buffer: Seq<(usize, char)>) -> ErrorView {
    ErrorView {
        kind: e.kind,
        span: e.span.map_values(|k: usize| buffer[buffer.len() - 1 - k].0),
    }
}

/// Ends the token in the buffer, if there is one: its text becomes a token
/// at the offset of its first character, or an error.
pub open spec fn flush(st: LexState) -> LexState {
    if st.buffer.len() == 0 {
        st
    } else {
        let text = text_of(st.buffer);
        match classify_spec(text, is_ident_text(text)) {
            Ok(kind) => LexState {
                buffer: Seq::empty(),
                tokens: st.tokens.push(TokenView { token_kind: kind, span: st.buffer[0].0 }),
                errors: st.errors,
            },
            Err(e) => LexState {
                buffer: Seq::empty(),
                tokens: st.tokens,
                errors: st.errors.push(located(e, st.buffer)),
            },
        }
    }
}

/// Makes the token of a single character that is no part of a buffer.
pub open spec fn single(st: LexState, item: (usize, char)) -> LexState {
    match classify_spec(seq![item.1], is_ident_text(seq![item.1])) {
        Ok(kind) => LexState {
            buffer: st.buffer,
            tokens: st.tokens.push(TokenView { token_kind: kind, span: item.0 }),
            errors: st.errors,
        },
        Err(e) => LexState { buffer: st.buffer, tokens: st.tokens, errors: st.errors.push(e) },
    }
}

/// One step of the lexer. A character that is not valid is passed over. A
/// digit or a point joins the buffer. A letter joins a buffer of letters and
/// ends a buffer of digits. Any other character ends the buffer and, unless
/// it is a blank, is a token by itself.
pub open spec fn step(st: LexState, item: (usize, char)) -> LexState {
    let c = item.1;
    if !is_valid_char(c) {
        st
    } else if is_digit(c) || c == '.' {
        LexState { buffer: st.buffer.push(item), tokens: st.tokens, errors: st.errors }
    } else if is_letter(c) {
        if st.buffer.len() > 0 && !is_letter(st.buffer[0].1) {
            let f = flush(st);
            LexState { buffer: seq![item], tokens: f.tokens, errors: f.errors }
        } else {
            LexState { buffer: st.buffer.push(item), tokens: st.tokens, errors: st.errors }
        }
    } else if c == ' ' {
        flush(st)
    } else {
        single(flush(st), item)
    }
}

/// The state of the lexer after the first `n` items.
pub open spec fn lex_run(items: Seq<(usize, char)>, n: int) -> LexState
    decreases n,
{
    if n <= 0 {
        LexState { buffer: Seq::empty(), tokens: Seq::empty(), errors: Seq::empty() }
    } else {
        step(lex_run(items, n - 1), items[n - 1])
    }
}

/// One error for each character of `items` that is not valid, in order,
/// each with the character and its offset.
pub open spec fn invalid_errors(items: Seq<(usize, char)>) -> Seq<ErrorView>
    decreases items.len(),
{
    if items.len() == 0 {
        Seq::empty()
    } else if is_valid_char(items.last().1) {
        invalid_errors(items.drop_last())
    } else {
        invalid_errors(items.drop_last()).push(
            ErrorView {
                kind: ErrorKindsView::InvalideChar(items.last().1),
                span: seq![items.last().0],
            },
        )
    }
}

/// Every error of a stream: first those of its invalid characters, then
/// those of its buffers and single characters.
pub open spec fn lex_errors(items: Seq<(usize, char)>) -> Seq<ErrorView> {
    invalid_errors(items) + flush(lex_run(items, items.len() as int)).errors
}

/// The result of lexing a stream: its tokens if it holds no error, else
/// all of its errors.
pub open spec fn lex_spec(items: Seq<(usize, char)>) -> Result<Seq<TokenView>, Seq<ErrorView>> {
    if lex_errors(items).len() == 0 {
        Ok(flush(lex_run(items, items.len() as int)).tokens)
    } else {
        Err(lex_errors(items))
    }
}

/// The view of a lexing result.
pub open spec fn lex_result_view(r: Result<Calculation, Vec<Error>>) -> Result<
    Seq<TokenView>,
    Seq<ErrorView>,
> {
    match r {
        Ok(tokens) => Ok(tokens.deep_view()),
        Err(errors) => Err(errors.deep_view()),
    }
}

/// The string that a buffer spells.
fn buffer_text(buffer: &Vec<(usize, char)>) -> (r: String)
    ensures
        r@ == text_of(buffer@),
{
    let mut out = String::new();
    let mut i: usize = 0;
    while i < buffer.len()
        invariant
            i <= buffer.len(),
            out@ == text_of(buffer@.take(i as int)),
        decreases buffer.len() - i,
    {
        out.push(buffer[i].1);
        assert(text_of(buffer@.take(i + 1)) =~= text_of(buffer@.take(i as int)).push(
            buffer@[i as int].1,
        ));
        i += 1;
    }
    assert(buffer@.take(buffer.len() as int) =~= buffer@);
    out
}

/// Replaces the distances of an error by the offsets they point at.
fn locate(e: Error, buffer: &Vec<(usize, char)>) -> (r: Error)
    requires
        forall|j: int| 0 <= j < e.span@.len() ==> (#[trigger] e.span@[j]) < buffer.len(),
    ensures
        r@ == located(e@, buffer@),
{
    let Error { kind, span } = e;
    let mut out: Vec<usize> = Vec::new();
    let mut j: usize = 0;
    while j < span.len()
        invariant
            j <= span.len(),
            forall|i: int| 0 <= i < span@.len() ==> (#[trigger] span@[i]) < buffer.len(),
            out@ == span@.take(j as int).map_values(
                |k: usize| buffer@[buffer@.len() - 1 - k].0,
            ),
        decreases span.len() - j,
    {
        let k = span[j];
        out.push(buffer[buffer.len() - 1 - k].0);
        assert(out@ =~= span@.take(j + 1).map_values(
            |k: usize| buffer@[buffer@.len() - 1 - k].0,
        ));
        j += 1;
    }
    assert(span@.take(span.len() as int) =~= span@);
    Error { kind, span: out }
}

/// The state that three vectors stand for.
pub open spec fn state_of(
    buffer: &Vec<(usize, char)>,
    tokens: &Calculation,
    errors: &Vec<Error>,
) -> LexState {
    LexState { buffer: buffer@, tokens: tokens.deep_view(), errors: errors.deep_view() }
}

fn flush_buffer(buffer: &mut Vec<(usize, char)>, tokens: &mut Calculation, errors: &mut Vec<Error>)
    ensures
        state_of(final(buffer), final(tokens), final(errors)) == flush(
            state_of(old(buffer), old(tokens), old(errors)),
        ),
{
    if buffer.len() == 0 {
        return ;
    }
    let text = buffer_text(buffer);
    proof {
        lemma_dots_are_the_points(text@, 0);
    }
    match TokenKind::from_str(text.as_str()) {
        Ok(kind) => {
            let token = Token::new(kind, buffer[0].0);
            proof {
                lemma_deep_view_push(tokens@, token);
            }
            tokens.push(token);
        },
        Err(e) => {
            let e = locate(e, buffer);
            proof {
                lemma_deep_view_push(errors@, e);
            }
            errors.push(e);
        },
    }
    buffer.clear();
}

fn single_token(item: (usize, char), buffer: &Vec<(usize, char)>, tokens: &mut Calculation, errors: &mut Vec<Error>)
    ensures
        state_of(buffer, final(tokens), final(errors)) == single(
            state_of(buffer, old(tokens), old(errors)),
            item,
        ),
{
    let mut text = String::new();
    text.push(item.1);
    assert(text@ =~= seq![item.1]);
    match TokenKind::from_str(text.as_str()) {
        Ok(kind) => {
            let token = Token::new(kind, item.0);
            proof {
                lemma_deep_view_push(tokens@, token);
            }
            tokens.push(token);
        },
        Err(e) => {
            proof {
                lemma_deep_view_push(errors@, e);
            }
            errors.push(e);
        },
    }
}

/// Lexes a normalized stream: the tokens it spells, or every error in it.
pub fn lex(items: &Vec<(usize, char)>) -> (r: Result<Calculation, Vec<Error>>)
    ensures
        lex_result_view(r) == lex_spec(items@),
{
    let mut invalid: Vec<Error> = Vec::new();
    let mut buffer: Vec<(usize, char)> = Vec::new();
    let mut tokens: Calculation = Vec::new();
    let mut errors: Vec<Error> = Vec::new();
    let mut i: usize = 0;
    assert(items@.take(0) =~= Seq::empty());
    assert(tokens.deep_view() =~= Seq::empty());
    assert(errors.deep_view() =~= Seq::empty());
    assert(invalid.deep_view() =~= Seq::empty());
    while i < items.len()
        invariant
            i <= items.len(),
            state_of(&buffer, &tokens, &errors) == lex_run(items@, i as int),
            invalid.deep_view() == invalid_errors(items@.take(i as int)),
        decreases items.len() - i,
    {
        let item = items[i];
        let c = item.1;
        assert(items@.take(i + 1).drop_last() =~= items@.take(i as int));
        assert(items@.take(i + 1).last() == item);
        if !valid_char(c) {
            let mut at: Vec<usize> = Vec::new();
            at.push(item.0);
            assert(at@ =~= seq![item.0]);
            let e = Error::new(ErrorKinds::InvalideChar(c), at);
            proof {
                lemma_deep_view_push(invalid@, e);
            }
            invalid.push(e);
        } else if digit(c) || c == '.' {
            buffer.push(item);
        } else if letter(c) {
            if buffer.len() > 0 && !letter(buffer[0].1) {
                flush_buffer(&mut buffer, &mut tokens, &mut errors);
            }
            buffer.push(item);
            assert(Seq::<(usize, char)>::empty().push(item) =~= seq![item]);
        } else {
            flush_buffer(&mut buffer, &mut tokens, &mut errors);
            if c != ' ' {
                single_token(item, &buffer, &mut tokens, &mut errors);
            }
        }
        i += 1;
    }
    assert(items@.take(items.len() as int) =~= items@);
    flush_buffer(&mut buffer, &mut tokens, &mut errors);
    let ghost found = errors.deep_view();
    let ghost first = invalid.deep_view();
    invalid.append(&mut errors);
    assert(invalid.deep_view() =~= first + found);
    if invalid.len() == 0 {
        Ok(tokens)
    } else {
        Err(invalid)
    }
}

} // verus!
