//! The first stage: the input is cut to its content and rewritten into a
//! stream of characters, each with the offset at which it stood in the input.

use crate::utils::{collapse, computes, decides, leading_run, DedupReplaceFor};
use vstd::prelude::*;

verus! {

/// Whether `char::is_whitespace` holds of `c`, that is, whether `c` has the
/// Unicode property `White_Space`.
pub uninterp spec fn is_white_space(c: char) -> bool;

/// Asks `char::is_whitespace` whether `c` is white space.
#[verifier::external_body]
fn white_space(c: char) -> (r: bool)
    ensures
        r == is_white_space(c),
{
    c.is_whitespace()
}

/// The length of `s` without its trailing white space.
pub open spec fn content_end(s: Seq<char>) -> int
    decreases s.len(),
{
    if s.len() > 0 && is_white_space(s.last()) {
        content_end(s.drop_last())
    } else {
        s.len() as int
    }
}

/// The index of the first character at or after `from` and before `end`
/// that is no white space, or `end` if there is none.
pub open spec fn content_start(s: Seq<char>, from: int, end: int) -> int
    decreases end - from,
{
    if 0 <= from < end <= s.len() && is_white_space(s[from]) {
        content_start(s, from + 1, end)
    } else {
        from
    }
}

/// A comma is read as a decimal point.
pub open spec fn point_for_comma(c: char) -> char {
    if c == ',' {
        '.'
    } else {
        c
    }
}

/// The characters of `s[start..end]`, commas replaced, each with its offset.
pub open spec fn indexed(s: Seq<char>, start: int, end: int) -> Seq<(usize, char)> {
    Seq::new(
        if start <= end {
            (end - start) as nat
        } else {
            0
        },
        |i: int| ((start + i) as usize, point_for_comma(s[start + i])),
    )
}

/// `items` with every blank that follows a blank removed.
pub open spec fn collapse_spaces(items: Seq<(usize, char)>) -> Seq<(usize, char)>
    decreases items.len(),
{
    if items.len() == 0 {
        Seq::empty()
    } else if items.len() >= 2 && items.last().1 == ' ' && items[items.len() - 2].1 == ' ' {
        collapse_spaces(items.drop_last())
    } else {
        collapse_spaces(items.drop_last()).push(items.last())
    }
}

/// `items` with every two neighbouring `/`, paired from the left, replaced
/// by one `~` that stands at the offset of the first of the two.
pub open spec fn merge_slash_pairs(items: Seq<(usize, char)>) -> Seq<(usize, char)>
    decreases items.len(),
{
    if items.len() == 0 {
        Seq::empty()
    } else if items.len() >= 2 && items[0].1 == '/' && items[1].1 == '/' {
        seq![(items[0].0, '~')] + merge_slash_pairs(items.skip(2))
    } else {
        seq![items[0]] + merge_slash_pairs(items.skip(1))
    }
}

/// The normalized stream of the input `s`: trailing and leading white space
/// dropped, commas read as points, runs of blanks reduced to one blank and
/// pairs of slashes to floor-division marks. Offsets are those of `s`.
pub open spec fn normalize_spec(s: Seq<char>) -> Seq<(usize, char)> {
    let end = content_end(s);
    let start = content_start(s, 0, end);
    merge_slash_pairs(collapse_spaces(indexed(s, start, end)))
}

/// The content of a text ends inside it.
pub proof fn lemma_content_end(s: Seq<char>)
    ensures
        0 <= content_end(s) <= s.len(),
        content_end(s) > 0 ==> !is_white_space(s[content_end(s) - 1]),
        forall|j: int| content_end(s) <= j < s.len() ==> is_white_space(#[trigger] s[j]),
    decreases s.len(),
{
    if s.len() > 0 && is_white_space(s.last()) {
        let t = s.drop_last();
        lemma_content_end(t);
        assert forall|j: int| content_end(s) <= j < s.len() implies is_white_space(
            #[trigger] s[j],
        ) by {
            if j < t.len() {
                assert(t[j] == s[j]);
            }
        }
    }
}

/// The content of a text starts between the place the search began and the
/// end, at a character that is no white space.
pub proof fn lemma_content_start(s: Seq<char>, from: int, end: int)
    requires
        0 <= from <= end <= s.len(),
    ensures
        from <= content_start(s, from, end) <= end,
        content_start(s, from, end) < end ==> !is_white_space(s[content_start(s, from, end)]),
        forall|j: int| from <= j < content_start(s, from, end) ==> is_white_space(#[trigger] s[j]),
    decreases end - from,
{
    if from < end && is_white_space(s[from]) {
        lemma_content_start(s, from + 1, end);
    }
}

fn find_content_end(v: &Vec<char>) -> (r: usize)
    ensures
        r == content_end(v@),
        r <= v.len(),
{
    let mut end: usize = v.len();
    assert(v@.take(end as int) =~= v@);
    while end > 0 && white_space(v[end - 1])
        invariant
            end <= v.len(),
            content_end(v@) == content_end(v@.take(end as int)),
        decreases end,
    {
        assert(v@.take(end as int).drop_last() =~= v@.take(end - 1));
        end -= 1;
    }
    end
}

fn find_content_start(v: &Vec<char>, end: usize) -> (r: usize)
    requires
        end <= v.len(),
    ensures
        r == content_start(v@, 0, end as int),
        r <= end,
{
    let mut start: usize = 0;
    while start < end && white_space(v[start])
        invariant
            start <= end <= v.len(),
            content_start(v@, 0, end as int) == content_start(v@, start as int, end as int),
        decreases end - start,
    {
        start += 1;
    }
    start
}

fn index_chars(v: &Vec<char>, start: usize, end: usize) -> (r: Vec<(usize, char)>)
    requires
        start <= end <= v.len(),
    ensures
        r@ == indexed(v@, start as int, end as int),
{
    let mut out: Vec<(usize, char)> = Vec::new();
    let mut i: usize = start;
    while i < end
        invariant
            start <= i <= end <= v.len(),
            out@ == indexed(v@, start as int, i as int),
        decreases end - i,
    {
        let c = v[i];
        let ghost before = out@;
        out.push((i, if c == ',' { '.' } else { c }));
        assert(out@ =~= indexed(v@, start as int, i + 1));
        i += 1;
    }
    out
}

fn drop_repeated_spaces(items: Vec<(usize, char)>) -> (r: Vec<(usize, char)>)
    ensures
        r@ == collapse_spaces(items@),
{
    let mut out: Vec<(usize, char)> = Vec::new();
    let mut i: usize = 0;
    assert(items@.take(0) =~= Seq::empty());
    while i < items.len()
        invariant
            i <= items.len(),
            out@ == collapse_spaces(items@.take(i as int)),
        decreases items.len() - i,
    {
        let item = items[i];
        assert(items@.take(i + 1).drop_last() =~= items@.take(i as int));
        if !(i >= 1 && item.1 == ' ' && items[i - 1].1 == ' ') {
            out.push(item);
        }
        i += 1;
    }
    assert(items@.take(items.len() as int) =~= items@);
    out
}

/// Whether an item is a slash.
pub open spec fn is_slash() -> spec_fn((usize, char)) -> bool {
    |item: (usize, char)| item.1 == '/'
}

/// The floor-division mark that stands one offset before an item.
pub open spec fn mark_before() -> spec_fn((usize, char)) -> (usize, char) {
    |item: (usize, char)| ((item.0 - 1) as usize, '~')
}

/// Offsets grow along the stream, and by one from each item to the next
/// except behind a blank.
pub open spec fn well_spaced(items: Seq<(usize, char)>) -> bool {
    forall|k: int|
        0 <= k < items.len() - 1 ==> (#[trigger] items[k]).0 < items[k + 1].0 && (items[k + 1].0
            == items[k].0 + 1 || items[k].1 == ' ')
}

/// The characters of a text, taken with their offsets, are well spaced.
pub proof fn lemma_indexed_well_spaced(s: Seq<char>, start: int, end: int)
    requires
        0 <= start <= end <= s.len() <= usize::MAX,
    ensures
        well_spaced(indexed(s, start, end)),
{
}

/// Dropping the blanks that follow a blank keeps a stream well spaced.
pub proof fn lemma_collapse_spaces_well_spaced(items: Seq<(usize, char)>)
    requires
        well_spaced(items),
    ensures
        well_spaced(collapse_spaces(items)),
        items.len() > 0 ==> {
            let kept = collapse_spaces(items);
            &&& kept.len() > 0
            &&& kept.last().0 <= items.last().0
            &&& (kept.last() == items.last() || (kept.last().1 == ' ' && items.last().1 == ' '))
        },
    decreases items.len(),
{
    if items.len() > 0 {
        let shorter = items.drop_last();
        assert forall|k: int| 0 <= k < shorter.len() - 1 implies (#[trigger] shorter[k]).0
            < shorter[k + 1].0 && (shorter[k + 1].0 == shorter[k].0 + 1 || shorter[k].1
            == ' ') by {
            assert(shorter[k] == items[k]);
            assert(shorter[k + 1] == items[k + 1]);
        }
        lemma_collapse_spaces_well_spaced(shorter);
        let kept = collapse_spaces(shorter);
        if items.len() >= 2 {
            assert(shorter.last() == items[items.len() - 2]);
        }
        if !(items.len() >= 2 && items.last().1 == ' ' && items[items.len() - 2].1 == ' ') {
            let grown = kept.push(items.last());
            assert forall|k: int| 0 <= k < grown.len() - 1 implies (#[trigger] grown[k]).0
                < grown[k + 1].0 && (grown[k + 1].0 == grown[k].0 + 1 || grown[k].1 == ' ') by {
                if k < kept.len() - 1 {
                    assert(grown[k] == kept[k]);
                    assert(grown[k + 1] == kept[k + 1]);
                } else {
                    assert(grown[k] == kept.last());
                    assert(items[items.len() - 2].0 < items[items.len() - 2 + 1].0);
                }
            }
        }
    }
}

/// In a well-spaced stream, replacing each pair of slashes by what
/// `mark_before` makes of the second is the same as merging the pair into a
/// mark at the offset of the first.
pub proof fn lemma_collapse_is_merge(items: Seq<(usize, char)>)
    requires
        well_spaced(items),
    ensures
        collapse(items, is_slash(), mark_before(), 2) == merge_slash_pairs(items),
    decreases items.len(),
{
    if items.len() > 0 {
        let step: int = if leading_run(items, is_slash(), 2) {
            2
        } else {
            1
        };
        let rest = items.skip(step);
        assert forall|k: int| 0 <= k < rest.len() - 1 implies (#[trigger] rest[k]).0 < rest[k
            + 1].0 && (rest[k + 1].0 == rest[k].0 + 1 || rest[k].1 == ' ') by {
            assert(rest[k] == items[k + step]);
            assert(rest[k + 1] == items[k + step + 1]);
        }
        lemma_collapse_is_merge(rest);
        if leading_run(items, is_slash(), 2) {
            assert(is_slash()(items[0]) && is_slash()(items[1]));
            assert(items[0int].0 < items[0int + 1].0);
        } else {
            if items.len() >= 2 && items[0].1 == '/' && items[1].1 == '/' {
                assert forall|j: int| 0 <= j < 2 implies is_slash()(#[trigger] items[j]) by {}
            }
        }
    }
}

fn pair_slashes(items: Vec<(usize, char)>) -> (r: Vec<(usize, char)>)
    requires
        well_spaced(items@),
    ensures
        r@ == merge_slash_pairs(items@),
{
    let mut items = items;
    let ghost given = items@;
    let same_as = |item: &(usize, char)| -> (b: bool)
        ensures
            b == (item.1 == '/'),
        { item.1 == '/' };
    let build = |item: (usize, char)| -> (marked: (usize, char))
        requires
            item.0 >= 1,
        ensures
            marked == ((item.0 - 1) as usize, '~'),
        { (item.0 - 1, '~') };
    assert forall|i: int| 0 <= i < given.len() && 2 <= i + 1 implies call_requires(
        build,
        (#[trigger] given[i],),
    ) by {
        assert(given[i - 1].0 < given[i - 1 + 1].0);
    }
    items.dedup_and_replace_for_by_then_build(2, same_as, build);
    proof {
        assert(decides(same_as, is_slash(), given));
        assert(computes(build, mark_before(), given));
        lemma_collapse_is_merge(given);
    }
    items
}

/// Normalizes the characters of an input.
pub fn normalize(v: &Vec<char>) -> (r: Vec<(usize, char)>)
    ensures
        r@ == normalize_spec(v@),
{
    let end = find_content_end(v);
    let start = find_content_start(v, end);
    let indexed = index_chars(v, start, end);
    proof {
        lemma_indexed_well_spaced(v@, start as int, end as int);
        lemma_collapse_spaces_well_spaced(indexed@);
    }
    pair_slashes(drop_repeated_spaces(indexed))
}

} // verus!
