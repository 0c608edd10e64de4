//! Number literals. A literal is kept as the text that was written, and a
//! sign: its numeric value is for the host's arithmetic to take from the text.

use crate::chars::{digit, is_digit, to_chars};
use vstd::prelude::*;

verus! {

/// The index just behind the run of digits that starts at `from`.
pub open spec fn digits_end(s: Seq<char>, from: int) -> int
    decreases s.len() - from,
{
    if 0 <= from < s.len() && is_digit(s[from]) {
        digits_end(s, from + 1)
    } else {
        from
    }
}

/// The index just behind the mantissa that starts `s`: digits, then at most
/// one `.` and more digits.
pub open spec fn mantissa_end(s: Seq<char>) -> int {
    let a = digits_end(s, 0);
    if a < s.len() && s[a] == '.' {
        digits_end(s, a + 1)
    } else {
        a
    }
}

/// How many digits the mantissa of `s` holds.
pub open spec fn mantissa_digits(s: Seq<char>) -> int {
    let a = digits_end(s, 0);
    if a < s.len() && s[a] == '.' {
        digits_end(s, a + 1) - 1
    } else {
        a
    }
}

/// `s[from..]` is an exponent: `e` or `E`, an optional sign, and at least
/// one digit up to the end of `s`.
pub open spec fn is_exponent(s: Seq<char>, from: int) -> bool {
    &&& 0 <= from < s.len()
    &&& (s[from] == 'e' || s[from] == 'E')
    &&& {
        let c = if from + 1 < s.len() && (s[from + 1] == '+' || s[from + 1] == '-') {
            from + 2
        } else {
            from + 1
        };
        digits_end(s, c) > c && digits_end(s, c) == s.len()
    }
}

/// `s` is an unsigned decimal literal: a mantissa with at least one digit,
/// optionally followed by an exponent, and nothing else.
pub open spec fn is_number_text(s: Seq<char>) -> bool {
    &&& mantissa_digits(s) >= 1
    &&& (mantissa_end(s) == s.len() || is_exponent(s, mantissa_end(s)))
}

/// A run of digits read from inside it ends where the whole run ends.
pub proof fn lemma_digits_end_from_inside(s: Seq<char>, from: int, mid: int)
    requires
        0 <= from <= mid <= s.len(),
        forall|j: int| from <= j < mid ==> is_digit(#[trigger] s[j]),
    ensures
        digits_end(s, from) == digits_end(s, mid),
    decreases mid - from,
{
    if from < mid {
        lemma_digits_end_from_inside(s, from + 1, mid);
    }
}

/// The index just behind the run of digits of `v` that starts at `from`.
pub fn scan_digits(v: &Vec<char>, from: usize) -> (r: usize)
    requires
        from <= v.len(),
    ensures
        r == digits_end(v@, from as int),
        from <= r <= v.len(),
{
    let mut i: usize = from;
    while i < v.len() && digit(v[i])
        invariant
            from <= i <= v.len(),
            forall|j: int| from <= j < i ==> is_digit(#[trigger] v@[j]),
        decreases v.len() - i,
    {
        i += 1;
    }
    proof {
        lemma_digits_end_from_inside(v@, from as int, i as int);
    }
    i
}

/// Whether the characters `v` spell an unsigned decimal literal.
pub fn number_text(v: &Vec<char>) -> (r: bool)
    ensures
        r == is_number_text(v@),
{
    let a = scan_digits(v, 0);
    let (b, digits) = if a < v.len() && v[a] == '.' {
        let b = scan_digits(v, a + 1);
        (b, b - 1)
    } else {
        (a, a)
    };
    if digits < 1 {
        return false;
    }
    if b == v.len() {
        return true;
    }
    if !(v[b] == 'e' || v[b] == 'E') {
        return false;
    }
    let c = if b + 1 < v.len() && (v[b + 1] == '+' || v[b + 1] == '-') {
        b + 2
    } else {
        b + 1
    };
    let d = scan_digits(v, c);
    d > c && d == v.len()
}

/// A number literal: the unsigned text as written, and whether it is negated.
#[derive(Debug, PartialEq)]
pub struct Decimal {
    negative: bool,
    text: String,
}

/// The mathematical content of a [`Decimal`].
pub struct DecimalView {
    pub negative: bool,
    pub text: Seq<char>,
}

/// The number that the digits `s[from..to]` spell in base ten.
pub open spec fn digits_value(s: Seq<char>, from: int, to: int) -> nat
    decreases to - from,
{
    if to <= from {
        0
    } else {
        digits_value(s, from, to - 1) * 10 + (s[to - 1] as nat - '0' as nat) as nat
    }
}

/// Ten to the power `n`.
pub open spec fn power_of_ten(n: nat) -> nat
    decreases n,
{
    if n == 0 {
        1
    } else {
        10 * power_of_ten((n - 1) as nat)
    }
}

/// How many digits of the literal `s` stand behind its point.
pub open spec fn fraction_digits(s: Seq<char>) -> nat {
    let a = digits_end(s, 0);
    if a < s.len() && s[a] == '.' {
        (digits_end(s, a + 1) - a - 1) as nat
    } else {
        0
    }
}

/// The digits of the mantissa of the literal `s`, read as one whole number
/// without the point.
pub open spec fn mantissa_value(s: Seq<char>) -> nat {
    let a = digits_end(s, 0);
    digits_value(s, 0, a) * power_of_ten(fraction_digits(s)) + digits_value(
        s,
        a + 1,
        a + 1 + fraction_digits(s),
    )
}

/// The exponent that the literal `s` writes behind its mantissa; zero where
/// it writes none.
pub open spec fn written_exponent(s: Seq<char>) -> int {
    let b = mantissa_end(s);
    if is_exponent(s, b) {
        if s[b + 1] == '-' {
            -(digits_value(s, b + 2, s.len() as int) as int)
        } else if s[b + 1] == '+' {
            digits_value(s, b + 2, s.len() as int) as int
        } else {
            digits_value(s, b + 1, s.len() as int) as int
        }
    } else {
        0
    }
}

impl DecimalView {
    /// The whole number of which the literal is a multiple by a power of
    /// ten: its mantissa without the point, with the sign of the literal.
    pub open spec fn significand(self) -> int {
        if self.negative {
            -(mantissa_value(self.text) as int)
        } else {
            mantissa_value(self.text) as int
        }
    }

    /// The power of ten by which the significand is multiplied: the literal
    /// denotes the number `significand() * 10^exponent()`.
    pub open spec fn exponent(self) -> int {
        written_exponent(self.text) - fraction_digits(self.text)
    }
}

impl View for Decimal {
    type V = DecimalView;

    closed spec fn view(&self) -> DecimalView {
        DecimalView { negative: self.negative, text: self.text@ }
    }
}

impl Decimal {
    /// Every literal holds the text of an unsigned decimal literal.
    #[verifier::type_invariant]
    pub closed spec fn well_formed(&self) -> bool {
        is_number_text(self.text@)
    }

    /// The positive literal written as `s`, or `None` where `s` is no
    /// unsigned decimal literal.
    pub fn parse(s: &str) -> (r: Option<Decimal>)
        ensures
            r is Some <==> is_number_text(s@),
            r is Some ==> r->0@ == (DecimalView { negative: false, text: s@ }),
    {
        let v = to_chars(s);
        if number_text(&v) {
            Some(Decimal { negative: false, text: s.to_owned() })
        } else {
            None
        }
    }

    /// Whether the literal is negated.
    pub fn is_negative(&self) -> (r: bool)
        ensures
            r == self@.negative,
    {
        self.negative
    }

    /// The unsigned text of the literal.
    pub fn text(&self) -> (r: &str)
        ensures
            r@ == self@.text,
            is_number_text(r@),
    {
        proof {
            use_type_invariant(self);
        }
        self.text.as_str()
    }

    /// The literal with the opposite sign.
    pub fn negated(self) -> (r: Decimal)
        ensures
            r@ == (DecimalView { negative: !self@.negative, text: self@.text }),
    {
        proof {
            use_type_invariant(&self);
        }
        Decimal { negative: !self.negative, text: self.text }
    }

    /// A copy of the literal.
    pub fn duplicate(&self) -> (r: Decimal)
        ensures
            r@ == self@,
    {
        proof {
            use_type_invariant(self);
        }
        Decimal { negative: self.negative, text: self.text.clone() }
    }
}

} // verus!
