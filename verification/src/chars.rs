//! Character classes of the expression language and conversions between
//! strings and character vectors.

use vstd::prelude::*;

verus! {

/// Appending one character to a `String` (`String::push`): the text grows by
/// exactly that character at its end.
pub assume_specification[ String::push ](s: &mut String, c: char)
    ensures
        final(s)@ == old(s)@.push(c),
;

/// An ASCII decimal digit.
pub open spec fn is_digit(c: char) -> bool {
    '0' <= c <= '9'
}

/// An ASCII letter of either case.
pub open spec fn is_letter(c: char) -> bool {
    ('a' <= c <= 'z') || ('A' <= c <= 'Z')
}

/// One of the characters that spell an operator: `+ - * / % ^ ~`.
pub open spec fn is_operator_char(c: char) -> bool {
    c == '+' || c == '-' || c == '*' || c == '/' || c == '%' || c == '^' || c == '~'
}

/// Brackets, the two decimal separators and the blank.
pub open spec fn is_punctuation_char(c: char) -> bool {
    c == '(' || c == ')' || c == '.' || c == ',' || c == ' '
}

/// A character the lexer accepts; every other character is reported.
pub open spec fn is_valid_char(c: char) -> bool {
    is_operator_char(c) || is_punctuation_char(c) || is_digit(c) || is_letter(c)
}

/// Whether `c` is an ASCII decimal digit.
#[verifier::when_used_as_spec(is_digit)]
pub fn digit(c: char) -> (r: bool)
    ensures
        r == is_digit(c),
{
    '0' <= c && c <= '9'
}

/// Whether `c` is an ASCII letter.
#[verifier::when_used_as_spec(is_letter)]
pub fn letter(c: char) -> (r: bool)
    ensures
        r == is_letter(c),
{
    ('a' <= c && c <= 'z') || ('A' <= c && c <= 'Z')
}

/// Whether `c` is one of the characters that spell an operator.
#[verifier::when_used_as_spec(is_operator_char)]
pub fn operator_char(c: char) -> (r: bool)
    ensures
        r == is_operator_char(c),
{
    c == '+' || c == '-' || c == '*' || c == '/' || c == '%' || c == '^' || c == '~'
}

/// Whether the lexer accepts `c`.
#[verifier::when_used_as_spec(is_valid_char)]
pub fn valid_char(c: char) -> (r: bool)
    ensures
        r == is_valid_char(c),
{
    operator_char(c) || c == '(' || c == ')' || c == '.' || c == ',' || c == ' ' || digit(c)
        || letter(c)
}

/// The characters of `s`, in order.
pub fn to_chars(s: &str) -> (r: Vec<char>)
    ensures
        r@ == s@,
{
    let mut out: Vec<char> = Vec::new();
    for c in it: s.chars()
        invariant
            out@ == it.seq().take(it.index() as int),
            it.seq() == s@,
    {
        out.push(c);
    }
    out
}

/// Whether two texts hold the same characters.
pub fn same_text(a: &str, b: &str) -> (r: bool)
    ensures
        r == (a@ == b@),
{
    let x = to_chars(a);
    let y = to_chars(b);
    if x.len() != y.len() {
        return false;
    }
    let mut i: usize = 0;
    while i < x.len()
        invariant
            i <= x.len(),
            x.len() == y.len(),
            x@ == a@,
            y@ == b@,
            forall|j: int| 0 <= j < i ==> x@[j] == y@[j],
        decreases x.len() - i,
    {
        if x[i] != y[i] {
            assert(a@[i as int] != b@[i as int]);
            return false;
        }
        i += 1;
    }
    assert(x@ =~= y@);
    true
}

/// The ASCII lower-case form of `c`; other characters are unchanged.
pub open spec fn lower(c: char) -> char {
    if 'A' <= c <= 'Z' {
        ((c as u8) + 32) as char
    } else {
        c
    }
}

/// `s` with every ASCII upper-case letter replaced by its lower-case form.
pub open spec fn lowered(s: Seq<char>) -> Seq<char> {
    s.map_values(|c: char| lower(c))
}

} // verus!
