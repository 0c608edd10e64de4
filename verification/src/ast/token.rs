//! Tokens, and the rules that tell what kind of token a text is.

pub mod laws;
pub mod lexer;
pub mod normalize;
pub mod number;
pub mod operator;

use crate::chars::to_chars;
use crate::maph_error::{Error, ErrorKinds, ErrorKindsView, ErrorView};
use core::str::FromStr;
use number::{is_number_text, Decimal, DecimalView};
use operator::Operator;
use vstd::prelude::*;

verus! {

/// The tokens of one input, in the order in which they were written.
pub type Calculation = Vec<Token>;

/// What a token is.
#[derive(Debug, PartialEq)]
pub enum TokenKind {
    Number(Decimal),
    Op(Operator),
    Ident(String),
    LBrack,
    RBrack,
}

/// The mathematical content of a [`TokenKind`].
pub enum TokenKindView {
    Number(DecimalView),
    Op(Operator),
    Ident(Seq<char>),
    LBrack,
    RBrack,
}

impl View for TokenKind {
    type V = TokenKindView;

    open spec fn view(&self) -> TokenKindView {
        match self {
            TokenKind::Number(d) => TokenKindView::Number(d@),
            TokenKind::Op(op) => TokenKindView::Op(*op),
            TokenKind::Ident(name) => TokenKindView::Ident(name@),
            TokenKind::LBrack => TokenKindView::LBrack,
            TokenKind::RBrack => TokenKindView::RBrack,
        }
    }
}

/// A token: its kind and the offset of its first character in the input.
#[derive(Debug, PartialEq)]
pub struct Token {
    pub token_kind: TokenKind,
    pub span: usize,
}

/// The mathematical content of a [`Token`].
pub struct TokenView {
    pub token_kind: TokenKindView,
    pub span: usize,
}

impl View for Token {
    type V = TokenView;

    open spec fn view(&self) -> TokenView {
        TokenView { token_kind: self.token_kind@, span: self.span }
    }
}

impl DeepView for Token {
    type V = TokenView;

    open spec fn deep_view(&self) -> TokenView {
        self@
    }
}

impl Token {
    /// The token of the given kind that starts at the offset `span`.
    pub fn new(token_kind: TokenKind, span: usize) -> (r: Self)
        ensures
            r.token_kind == token_kind,
            r.span == span,
    {
        Self { token_kind, span }
    }
}

/// The pattern of an identifier: a letter, then letters and digits.
pub const IDENT_PATTERN: &'static str = "^((?i)[a-z])((?i)[a-z0-9])*$";

/// What the `regex` crate answers when `pattern` is compiled and searched
/// for in `text`: `None` where the pattern does not compile, else whether
/// there is a match.
pub uninterp spec fn pattern_match(pattern: Seq<char>, text: Seq<char>) -> Option<bool>;

/// Compiles `pattern` with `regex::Regex::new` and asks `Regex::is_match`
/// whether it matches somewhere in `text`. The answer depends on the two
/// texts alone; nothing more is claimed of it.
#[verifier::external_body]
fn match_pattern(pattern: &str, text: &str) -> (r: Option<bool>)
    ensures
        r == pattern_match(pattern@, text@),
{
    match regex::Regex::new(pattern) {
        Ok(re) => Some(re.is_match(text)),
        Err(_) => None,
    }
}

/// `text` matches the identifier pattern.
pub open spec fn is_ident_text(text: Seq<char>) -> bool {
    pattern_match(IDENT_PATTERN@, text) == Some(true)
}

/// For each `.` of `s`, its distance from the last character of `s`, those
/// nearest the end first; the scan starts at distance `k`.
pub open spec fn dots_from(s: Seq<char>, k: int) -> Seq<usize>
    decreases s.len() - k,
{
    if 0 <= k < s.len() {
        let here = if s[s.len() - 1 - k] == '.' {
            seq![k as usize]
        } else {
            Seq::empty()
        };
        here + dots_from(s, k + 1)
    } else {
        Seq::empty()
    }
}

/// The kind of token that `s` spells when it is no identifier, if that can
/// be told without the identifier pattern.
pub open spec fn plain_kind(s: Seq<char>) -> Option<TokenKindView> {
    if is_number_text(s) {
        Some(TokenKindView::Number(DecimalView { negative: false, text: s }))
    } else if Operator::of_text(s) is Some {
        Some(TokenKindView::Op(Operator::of_text(s)->0))
    } else if s == seq!['('] {
        Some(TokenKindView::LBrack)
    } else if s == seq![')'] {
        Some(TokenKindView::RBrack)
    } else {
        None
    }
}

/// What the text `s` is as a token, given whether it matches the identifier
/// pattern. A text with two or more `.` is an error that lists the distance
/// of each from the end of the text. Otherwise a number, an operator or a
/// bracket is that; any other text is an identifier where the pattern
/// matches and an error that quotes the text where it does not.
pub open spec fn classify_spec(s: Seq<char>, ident: bool) -> Result<TokenKindView, ErrorView> {
    if dots_from(s, 0).len() > 1 {
        Err(ErrorView { kind: ErrorKindsView::MultipleComma, span: dots_from(s, 0) })
    } else if plain_kind(s) is Some {
        Ok(plain_kind(s)->0)
    } else if ident {
        Ok(TokenKindView::Ident(s))
    } else {
        Err(ErrorView { kind: ErrorKindsView::UnknowOperator(s), span: Seq::empty() })
    }
}

/// The view of a classification.
pub open spec fn kind_result_view(r: Result<TokenKind, Error>) -> Result<TokenKindView, ErrorView> {
    match r {
        Ok(k) => Ok(k@),
        Err(e) => Err(e@),
    }
}

/// The distances from the end of `v` of each `.` in it, nearest first.
fn dot_distances(v: &Vec<char>) -> (r: Vec<usize>)
    ensures
        r@ == dots_from(v@, 0),
{
    let mut out: Vec<usize> = Vec::new();
    let mut k: usize = 0;
    let n = v.len();
    while k < n
        invariant
            n == v.len(),
            k <= n,
            out@ + dots_from(v@, k as int) == dots_from(v@, 0),
        decreases n - k,
    {
        let ghost before = out@;
        if v[n - 1 - k] == '.' {
            out.push(k);
            assert(out@ + dots_from(v@, k + 1) =~= before + (seq![k] + dots_from(v@, k + 1)));
        }
        k += 1;
    }
    assert(out@ + Seq::<usize>::empty() =~= out@);
    out
}

impl TokenKind {
    /// Classifies `s` as far as that can be done without the identifier
    /// pattern; `None` where the pattern decides.
    fn classify_plain(s: &str) -> (r: Option<Result<TokenKind, Error>>)
        ensures
            match r {
                Some(known) => forall|ident: bool|
                    kind_result_view(known) == #[trigger] classify_spec(s@, ident),
                None => dots_from(s@, 0).len() <= 1 && plain_kind(s@) is None,
            },
    {
        let v = to_chars(s);
        let commas = dot_distances(&v);
        if commas.len() > 1 {
            return Some(Err(Error::new(ErrorKinds::MultipleComma, commas)));
        }
        match Decimal::parse(s) {
            Some(d) => {
                return Some(Ok(TokenKind::Number(d)));
            },
            None => {},
        }
        match Operator::from_chars(&v) {
            Some(op) => {
                return Some(Ok(TokenKind::Op(op)));
            },
            None => {},
        }
        if v.len() == 1 && v[0] == '(' {
            assert(v@ =~= seq!['(']);
            return Some(Ok(TokenKind::LBrack));
        }
        if v.len() == 1 && v[0] == ')' {
            assert(v@ =~= seq![')']);
            assert(seq!['('][0] != seq![')'][0]);
            return Some(Ok(TokenKind::RBrack));
        }
        assert(v@ != seq!['(']) by {
            assert(seq!['('].len() == 1 && seq!['('][0] == '(');
        }
        assert(v@ != seq![')']) by {
            assert(seq![')'].len() == 1 && seq![')'][0] == ')');
        }
        None
    }

    /// Classifies `s`, given whether it matches the identifier pattern.
    pub fn classify(s: &str, ident: bool) -> (r: Result<TokenKind, Error>)
        ensures
            kind_result_view(r) == classify_spec(s@, ident),
    {
        match TokenKind::classify_plain(s) {
            Some(known) => known,
            None => {
                if ident {
                    Ok(TokenKind::Ident(s.to_owned()))
                } else {
                    Err(Error::new(ErrorKinds::UnknowOperator(s.to_owned()), Vec::new()))
                }
            },
        }
    }

}

impl FromStr for TokenKind {
    type Err = Error;

    /// Classifies `s`: a number, an operator, a bracket or an identifier, or
    /// the error that says why it is none of them.
    fn from_str(s: &str) -> (r: Result<TokenKind, Error>)
        ensures
            kind_result_view(r) == classify_spec(s@, is_ident_text(s@)),
    {
        match TokenKind::classify_plain(s) {
            Some(known) => known,
            None => {
                let ident = match match_pattern(IDENT_PATTERN, s) {
                    Some(found) => found,
                    None => false,
                };
                TokenKind::classify(s, ident)
            },
        }
    }
}

/// The result of lexing the input `s`: the tokens of its normalized stream,
/// or every error found in it.
pub open spec fn tokenize_spec(s: Seq<char>) -> Result<Seq<TokenView>, Seq<ErrorView>> {
    lexer::lex_spec(normalize::normalize_spec(s))
}

/// Texts that can be split into tokens.
pub trait Tokenize {
    type Err;

    /// Splits the text into tokens.
    fn tokenize(&self) -> Result<Calculation, Self::Err>;
}

impl Tokenize for &str {
    type Err = Vec<Error>;

    /// Splits the text into tokens, each with the offset at which it starts;
    /// where anything in the text is wrong, returns every error found.
    fn tokenize(&self) -> (r: Result<Calculation, Vec<Error>>)
        ensures
            lexer::lex_result_view(r) == tokenize_spec(self@),
    {
        let chars = to_chars(*self);
        let items = normalize::normalize(&chars);
        lexer::lex(&items)
    }
}

} // verus!
