//! Laws of the normalizer and of the lexer.

use super::lexer::{
    flush, invalid_errors, lex_errors, lex_run, lex_spec, located, text_of, LexState,
};
use super::normalize::{
    collapse_spaces, content_end, content_start, indexed, lemma_collapse_spaces_well_spaced,
    lemma_content_end, lemma_content_start, lemma_indexed_well_spaced, merge_slash_pairs,
    normalize_spec, point_for_comma,
};
use super::{classify_spec, dots_from, is_ident_text, tokenize_spec};
use crate::chars::is_valid_char;
use crate::maph_error::{ErrorKindsView, ErrorView};
use vstd::prelude::*;

verus! {

/// The error that reports the invalid character `item`.
pub open spec fn invalid_error(item: (usize, char)) -> ErrorView {
    ErrorView { kind: ErrorKindsView::InvalideChar(item.1), span: seq![item.0] }
}

/// The errors of the invalid characters among the first `n` items start
/// the errors of the invalid characters of all items.
pub proof fn lemma_invalid_errors_grow(items: Seq<(usize, char)>, n: int)
    requires
        0 <= n <= items.len(),
    ensures
        invalid_errors(items.take(n)).len() <= invalid_errors(items).len(),
        invalid_errors(items.take(n)) == invalid_errors(items).take(
            invalid_errors(items.take(n)).len() as int,
        ),
    decreases items.len() - n,
{
    if n == items.len() {
        assert(items.take(n) =~= items);
        assert(invalid_errors(items).take(invalid_errors(items).len() as int) =~= invalid_errors(
            items,
        ));
    } else {
        let shorter = items.drop_last();
        assert(shorter.take(n) =~= items.take(n));
        lemma_invalid_errors_grow(shorter, n);
        let part = invalid_errors(items.take(n));
        let inner = invalid_errors(shorter);
        let full = invalid_errors(items);
        assert(full == inner || full == inner.push(invalid_error(items.last())));
        assert(part.len() <= inner.len() <= full.len());
        assert(inner.take(part.len() as int) =~= full.take(part.len() as int));
    }
}

/// Every invalid character of a stream is reported: lexing fails, and the
/// error of the character at `i`, with the character and its own offset,
/// stands in the result behind the errors of the invalid characters before
/// it and before every other error.
pub proof fn lemma_invalid_character_reported(items: Seq<(usize, char)>, i: int)
    requires
        0 <= i < items.len(),
        !is_valid_char(items[i].1),
    ensures
        lex_spec(items) is Err,
        invalid_errors(items.take(i)).len() < lex_spec(items)->Err_0.len(),
        lex_spec(items)->Err_0[invalid_errors(items.take(i)).len() as int] == invalid_error(
            items[i],
        ),
{
    let upto = items.take(i + 1);
    assert(upto.drop_last() =~= items.take(i));
    assert(upto.last() == items[i]);
    lemma_invalid_errors_grow(items, i + 1);
    let k = invalid_errors(items.take(i)).len() as int;
    assert(invalid_errors(upto)[k] == invalid_error(items[i]));
    assert(invalid_errors(items).take(k + 1)[k] == invalid_errors(items)[k]);
    assert(lex_errors(items)[k] == invalid_errors(items)[k]);
}

/// The stream with its blanks thinned out still holds every item that is
/// no blank.
pub proof fn lemma_collapse_spaces_keeps(items: Seq<(usize, char)>, item: (usize, char))
    requires
        items.contains(item),
        item.1 != ' ',
    ensures
        collapse_spaces(items).contains(item),
    decreases items.len(),
{
    let i = choose|i: int| 0 <= i < items.len() && items[i] == item;
    let shorter = items.drop_last();
    let kept = collapse_spaces(shorter);
    if i < items.len() - 1 {
        assert(shorter[i] == item);
        lemma_collapse_spaces_keeps(shorter, item);
        let j = choose|j: int| 0 <= j < kept.len() && kept[j] == item;
        if collapse_spaces(items) != kept {
            assert(kept.push(items.last())[j] == item);
        }
    } else {
        assert(kept.push(item)[kept.len() as int] == item);
    }
}

/// The stream with its slashes paired still holds every item that is no
/// slash.
pub proof fn lemma_merge_slash_pairs_keeps(items: Seq<(usize, char)>, item: (usize, char))
    requires
        items.contains(item),
        item.1 != '/',
    ensures
        merge_slash_pairs(items).contains(item),
    decreases items.len(),
{
    let i = choose|i: int| 0 <= i < items.len() && items[i] == item;
    let paired = items.len() >= 2 && items[0].1 == '/' && items[1].1 == '/';
    let step: int = if paired {
        2
    } else {
        1
    };
    let rest = items.skip(step);
    let merged = merge_slash_pairs(rest);
    if i >= step {
        assert(rest[i - step] == item);
        lemma_merge_slash_pairs_keeps(rest, item);
        let j = choose|j: int| 0 <= j < merged.len() && merged[j] == item;
        assert(merge_slash_pairs(items)[j + 1] == item);
    } else {
        assert(merge_slash_pairs(items)[0] == item);
    }
}

/// An invalid character of the content of an input stands in the
/// normalized stream, with the offset at which it stands in the input.
pub proof fn lemma_normalize_keeps_invalid(s: Seq<char>, p: int)
    requires
        s.len() <= usize::MAX,
        content_start(s, 0, content_end(s)) <= p < content_end(s),
        !is_valid_char(s[p]),
    ensures
        normalize_spec(s).contains((p as usize, s[p])),
{
    let end = content_end(s);
    lemma_content_end(s);
    lemma_content_start(s, 0, end);
    let start = content_start(s, 0, end);
    let all = indexed(s, start, end);
    let item = (p as usize, s[p]);
    assert(all[p - start] == item);
    lemma_collapse_spaces_keeps(all, item);
    lemma_merge_slash_pairs_keeps(collapse_spaces(all), item);
}

/// Every invalid character of the content of an input is reported with
/// its own offset: lexing the input fails, and among the errors is one for
/// that character at that offset.
pub proof fn lemma_tokenize_reports_invalid(s: Seq<char>, p: int)
    requires
        s.len() <= usize::MAX,
        content_start(s, 0, content_end(s)) <= p < content_end(s),
        !is_valid_char(s[p]),
    ensures
        tokenize_spec(s) is Err,
        tokenize_spec(s)->Err_0.contains(invalid_error((p as usize, s[p]))),
{
    lemma_normalize_keeps_invalid(s, p);
    let items = normalize_spec(s);
    let item = (p as usize, s[p]);
    let i = choose|i: int| 0 <= i < items.len() && items[i] == item;
    lemma_invalid_character_reported(items, i);
    let k = invalid_errors(items.take(i)).len() as int;
    assert(tokenize_spec(s)->Err_0[k] == invalid_error(item));
}

/// The item stands in the input `s` between `start` and `end`: at its
/// offset the input holds its character, or the comma that it replaces.
pub open spec fn stands_in(s: Seq<char>, start: int, end: int, item: (usize, char)) -> bool {
    start <= item.0 < end && item.1 == point_for_comma(s[item.0 as int])
}

/// The item is a mark that stands in the input for two slashes, at the
/// offset of the first of them.
pub open spec fn marks_pair(s: Seq<char>, start: int, end: int, item: (usize, char)) -> bool {
    start <= item.0 && item.0 + 1 < end && item.1 == '~' && s[item.0 as int] == '/' && s[item.0
        + 1] == '/'
}

/// Thinning out the blanks adds no item.
pub proof fn lemma_collapse_spaces_adds_nothing(items: Seq<(usize, char)>, item: (usize, char))
    requires
        collapse_spaces(items).contains(item),
    ensures
        items.contains(item),
    decreases items.len(),
{
    if items.len() > 0 {
        let shorter = items.drop_last();
        let kept = collapse_spaces(shorter);
        let j = choose|j: int| 0 <= j < collapse_spaces(items).len() && collapse_spaces(items)[j]
            == item;
        if j < kept.len() {
            assert(kept[j] == item);
            lemma_collapse_spaces_adds_nothing(shorter, item);
            let i = choose|i: int| 0 <= i < shorter.len() && shorter[i] == item;
            assert(items[i] == item);
        } else {
            assert(items[items.len() - 1] == item);
        }
    }
}

/// An item of the paired stream is an item of the stream, or the mark of
/// two neighbouring slashes of the stream at the offset of the first.
pub proof fn lemma_merge_slash_pairs_origin(items: Seq<(usize, char)>, item: (usize, char))
    requires
        merge_slash_pairs(items).contains(item),
    ensures
        items.contains(item) || exists|j: int|
            0 <= j < items.len() - 1 && (#[trigger] items[j]).1 == '/' && items[j + 1].1 == '/'
                && item == (items[j].0, '~'),
    decreases items.len(),
{
    if items.len() > 0 {
        let paired = items.len() >= 2 && items[0].1 == '/' && items[1].1 == '/';
        let step: int = if paired {
            2
        } else {
            1
        };
        let rest = items.skip(step);
        let merged = merge_slash_pairs(rest);
        let k = choose|k: int| 0 <= k < merge_slash_pairs(items).len() && merge_slash_pairs(
            items,
        )[k] == item;
        if k == 0 {
            if paired {
                assert(items[0int].1 == '/' && items[0int + 1].1 == '/' && item == (items[0int].0, '~'));
            } else {
                assert(items[0] == item);
            }
        } else {
            assert(merged[k - 1] == item);
            lemma_merge_slash_pairs_origin(rest, item);
            if rest.contains(item) {
                let i = choose|i: int| 0 <= i < rest.len() && rest[i] == item;
                assert(items[i + step] == item);
            } else {
                let j = choose|j: int|
                    0 <= j < rest.len() - 1 && (#[trigger] rest[j]).1 == '/' && rest[j + 1].1
                        == '/' && item == (rest[j].0, '~');
                assert(items[j + step] == rest[j]);
                assert(items[j + step + 1] == rest[j + 1]);
            }
        }
    }
}

/// Every item of the normalized stream points into the content of the
/// input: at its offset the input holds its character, or the comma that it
/// replaces, or the first of the two slashes for which it is the mark.
pub proof fn lemma_normalized_items_stand_in_input(s: Seq<char>, item: (usize, char))
    requires
        s.len() <= usize::MAX,
        normalize_spec(s).contains(item),
    ensures
        ({
            let end = content_end(s);
            let start = content_start(s, 0, end);
            stands_in(s, start, end, item) || marks_pair(s, start, end, item)
        }),
{
    let end = content_end(s);
    lemma_content_end(s);
    lemma_content_start(s, 0, end);
    let start = content_start(s, 0, end);
    let all = indexed(s, start, end);
    let thin = collapse_spaces(all);
    lemma_indexed_well_spaced(s, start, end);
    lemma_collapse_spaces_well_spaced(all);
    lemma_merge_slash_pairs_origin(thin, item);
    if thin.contains(item) {
        lemma_collapse_spaces_adds_nothing(all, item);
        let i = choose|i: int| 0 <= i < all.len() && all[i] == item;
        assert(stands_in(s, start, end, item));
    } else {
        let j = choose|j: int|
            0 <= j < thin.len() - 1 && (#[trigger] thin[j]).1 == '/' && thin[j + 1].1 == '/'
                && item == (thin[j].0, '~');
        assert(thin.contains(thin[j]));
        assert(thin.contains(thin[j + 1]));
        lemma_collapse_spaces_adds_nothing(all, thin[j]);
        lemma_collapse_spaces_adds_nothing(all, thin[j + 1]);
        let a = choose|a: int| 0 <= a < all.len() && all[a] == thin[j];
        let b = choose|b: int| 0 <= b < all.len() && all[b] == thin[j + 1];
        assert(thin[j].0 < thin[j + 1].0 && (thin[j + 1].0 == thin[j].0 + 1 || thin[j].1 == ' '));
        assert(marks_pair(s, start, end, item));
    }
}

/// The tokens made from the first `n` items of a stream, and the items in
/// the buffer, start at offsets of items among those `n`.
pub proof fn lemma_tokens_start_in_stream(items: Seq<(usize, char)>, n: int)
    requires
        0 <= n <= items.len(),
    ensures
        forall|k: int|
            0 <= k < lex_run(items, n).tokens.len() ==> exists|i: int|
                0 <= i < n && items[i].0 == (#[trigger] lex_run(items, n).tokens[k]).span,
        forall|k: int|
            0 <= k < lex_run(items, n).buffer.len() ==> exists|i: int|
                0 <= i < n && items[i] == #[trigger] lex_run(items, n).buffer[k],
    decreases n,
{
    if n > 0 {
        lemma_tokens_start_in_stream(items, n - 1);
        let before = lex_run(items, n - 1);
        let after = lex_run(items, n);
        let item = items[n - 1];
        let flushed = flush(before);
        assert forall|k: int| 0 <= k < flushed.tokens.len() implies exists|i: int|
            0 <= i < n && items[i].0 == (#[trigger] flushed.tokens[k]).span by {
            if k < before.tokens.len() {
                assert(flushed.tokens[k] == before.tokens[k]);
                let i = choose|i: int| 0 <= i < n - 1 && items[i].0 == before.tokens[k].span;
                assert(0 <= i < n && items[i].0 == flushed.tokens[k].span);
            } else {
                let i = choose|i: int| 0 <= i < n - 1 && items[i] == before.buffer[0];
                assert(0 <= i < n && items[i].0 == flushed.tokens[k].span);
            }
        }
        assert forall|k: int| 0 <= k < after.tokens.len() implies exists|i: int|
            0 <= i < n && items[i].0 == (#[trigger] after.tokens[k]).span by {
            if k < before.tokens.len() {
                assert(after.tokens[k] == before.tokens[k]);
                let i = choose|i: int| 0 <= i < n - 1 && items[i].0 == before.tokens[k].span;
                assert(0 <= i < n && items[i].0 == after.tokens[k].span);
            } else if k < flushed.tokens.len() {
                assert(after.tokens[k] == flushed.tokens[k]);
            } else {
                assert(after.tokens[k].span == item.0);
                assert(0 <= n - 1 < n && items[n - 1].0 == after.tokens[k].span);
            }
        }
        assert forall|k: int| 0 <= k < after.buffer.len() implies exists|i: int|
            0 <= i < n && items[i] == #[trigger] after.buffer[k] by {
            if k < before.buffer.len() && after.buffer[k] == before.buffer[k] {
                let i = choose|i: int| 0 <= i < n - 1 && items[i] == before.buffer[k];
                assert(0 <= i < n && items[i] == after.buffer[k]);
            } else {
                assert(after.buffer[k] == item);
                assert(0 <= n - 1 < n && items[n - 1] == after.buffer[k]);
            }
        }
    }
}

/// Every token of an input starts at an offset inside the content of the
/// input.
pub proof fn lemma_tokens_start_in_input(s: Seq<char>, k: int)
    requires
        s.len() <= usize::MAX,
        tokenize_spec(s) is Ok,
        0 <= k < tokenize_spec(s)->Ok_0.len(),
    ensures
        content_start(s, 0, content_end(s)) <= tokenize_spec(s)->Ok_0[k].span < content_end(s),
{
    let items = normalize_spec(s);
    let n = items.len() as int;
    lemma_tokens_start_in_stream(items, n);
    let run = lex_run(items, n);
    let flushed = flush(run);
    let token = flushed.tokens[k];
    if k < run.tokens.len() {
        assert(token == run.tokens[k]);
        let i = choose|i: int| 0 <= i < n && items[i].0 == run.tokens[k].span;
        lemma_normalized_items_stand_in_input(s, items[i]);
    } else {
        let i = choose|i: int| 0 <= i < n && items[i] == run.buffer[0];
        lemma_normalized_items_stand_in_input(s, items[i]);
    }
}

/// The distances that `dots_from` lists are those of the points of the
/// text and of nothing else, each once, in growing order.
pub proof fn lemma_dots_are_the_points(s: Seq<char>, k: int)
    requires
        0 <= k,
        s.len() <= usize::MAX,
    ensures
        forall|j: int|
            0 <= j < dots_from(s, k).len() ==> k <= (#[trigger] dots_from(s, k)[j]) < s.len()
                && s[s.len() - 1 - dots_from(s, k)[j]] == '.',
        forall|i: int, j: int|
            0 <= i < j < dots_from(s, k).len() ==> dots_from(s, k)[i] < dots_from(s, k)[j],
        forall|d: usize|
            k <= d < s.len() && s[s.len() - 1 - d] == '.' ==> #[trigger] dots_from(s, k).contains(
                d,
            ),
    decreases s.len() - k,
{
    if k < s.len() {
        lemma_dots_are_the_points(s, k + 1);
        let rest = dots_from(s, k + 1);
        let here = if s[s.len() - 1 - k] == '.' {
            seq![k as usize]
        } else {
            Seq::empty()
        };
        let all = dots_from(s, k);
        assert(all == here + rest);
        assert forall|j: int| 0 <= j < all.len() implies k <= (#[trigger] all[j]) < s.len()
            && s[s.len() - 1 - all[j]] == '.' by {
            if j >= here.len() {
                assert(all[j] == rest[j - here.len()]);
            }
        }
        assert forall|i: int, j: int| 0 <= i < j < all.len() implies all[i] < all[j] by {
            assert(all[j] == rest[j - here.len()]);
            if i >= here.len() {
                assert(all[i] == rest[i - here.len()]);
            }
        }
        assert forall|d: usize|
            k <= d < s.len() && s[s.len() - 1 - d] == '.' implies #[trigger] all.contains(d) by {
            if d == k {
                assert(all[0] == d);
            } else {
                assert(rest.contains(d));
                let j = choose|j: int| 0 <= j < rest.len() && rest[j] == d;
                assert(all[j + here.len()] == d);
            }
        }
    }
}

/// A buffer whose text holds two or more points is flushed into one error
/// that lists the offset of each of its points, the last point first.
pub proof fn lemma_points_located(st: LexState)
    requires
        st.buffer.len() <= usize::MAX,
        dots_from(text_of(st.buffer), 0).len() > 1,
    ensures
        flush(st).tokens == st.tokens,
        flush(st).errors.len() == st.errors.len() + 1,
        flush(st).errors.last().kind == ErrorKindsView::MultipleComma,
        ({
            let span = flush(st).errors.last().span;
            let dots = dots_from(text_of(st.buffer), 0);
            &&& span.len() == dots.len()
            &&& forall|j: int|
                0 <= j < span.len() ==> {
                    let at = st.buffer.len() - 1 - dots[j];
                    &&& 0 <= at < st.buffer.len()
                    &&& st.buffer[at].1 == '.'
                    &&& (#[trigger] span[j]) == st.buffer[at].0
                }
            &&& forall|i: int, j: int| 0 <= i < j < dots.len() ==> dots[i] < dots[j]
        }),
{
    let text = text_of(st.buffer);
    lemma_dots_are_the_points(text, 0);
    let e = classify_spec(text, is_ident_text(text))->Err_0;
    assert(flush(st).errors.last() == located(e, st.buffer));
    let dots = dots_from(text, 0);
    assert forall|j: int| 0 <= j < dots.len() implies st.buffer[st.buffer.len() - 1 - dots[j]].1
        == '.' by {
        assert(text[text.len() - 1 - dots[j]] == '.');
    }
}

} // verus!
