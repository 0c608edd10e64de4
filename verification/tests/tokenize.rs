use maph::ast::token::number::Decimal;
use maph::ast::token::operator::Operator;
use maph::ast::token::{Token, TokenKind, Tokenize};
use maph::maph_error::{Error, ErrorKinds};

#[derive(Debug, PartialEq)]
enum Kind {
    Number(f64),
    Op(Operator),
    Ident(String),
    LBrack,
    RBrack,
}

fn value(d: &Decimal) -> f64 {
    let magnitude: f64 = d.text().parse().unwrap();
    if d.is_negative() {
        -magnitude
    } else {
        magnitude
    }
}

fn plain(tokens: Vec<Token>) -> Vec<(Kind, usize)> {
    tokens
        .into_iter()
        .map(|t| {
            let kind = match t.token_kind {
                TokenKind::Number(d) => Kind::Number(value(&d)),
                TokenKind::Op(op) => Kind::Op(op),
                TokenKind::Ident(name) => Kind::Ident(name),
                TokenKind::LBrack => Kind::LBrack,
                TokenKind::RBrack => Kind::RBrack,
            };
            (kind, t.span)
        })
        .collect()
}

fn lexed(s: &str) -> Result<Vec<(Kind, usize)>, Vec<Error>> {
    s.tokenize().map(plain)
}

fn number(x: f64, span: usize) -> (Kind, usize) {
    (Kind::Number(x), span)
}

fn op(o: Operator, span: usize) -> (Kind, usize) {
    (Kind::Op(o), span)
}

fn ident(name: &str, span: usize) -> (Kind, usize) {
    (Kind::Ident(name.to_owned()), span)
}

#[test]
fn tokenize_unknow_char() {
    let calculation = lexed("$");
    assert_eq!(
        calculation,
        Err(vec![Error::new(ErrorKinds::InvalideChar('$'), vec![0])])
    )
}

#[test]
fn tokenize_multiple_unknow_chars() {
    let calculation = lexed("$¨\" 123");
    assert_eq!(
        calculation,
        Err(vec![
            Error::new(ErrorKinds::InvalideChar('$'), vec![0]),
            Error::new(ErrorKinds::InvalideChar('¨'), vec![1]),
            Error::new(ErrorKinds::InvalideChar('"'), vec![2]),
        ])
    )
}

#[test]
fn tokenize_simple_addition() {
    let calculation = lexed("1 + 2");
    assert_eq!(
        calculation,
        Ok(vec![number(1., 0), op(Operator::Add, 2), number(2., 4)])
    );
}

#[test]
fn tokenize_multiple_scope() {
    let calcuation = lexed("(2 - ((0) * 2))()((");
    assert_eq!(
        calcuation,
        Ok(vec![
            (Kind::LBrack, 0),
            number(2., 1),
            op(Operator::Sub, 3),
            (Kind::LBrack, 5),
            (Kind::LBrack, 6),
            number(0., 7),
            (Kind::RBrack, 8),
            op(Operator::Mul, 10),
            number(2., 12),
            (Kind::RBrack, 13),
            (Kind::RBrack, 14),
            (Kind::LBrack, 15),
            (Kind::RBrack, 16),
            (Kind::LBrack, 17),
            (Kind::LBrack, 18),
        ])
    )
}

#[test]
fn tokenize_float_number() {
    let calculation = lexed("42.69");
    assert_eq!(calculation, Ok(vec![number(42.69, 0)]))
}

#[test]
fn tokenize_float_number_without_decimal_part() {
    let calculation = lexed("13105.");
    assert_eq!(calculation, Ok(vec![number(13105., 0)]))
}

#[test]
fn tokenize_float_number_with_multiple_comma() {
    let calculation = lexed("131.05.");
    assert_eq!(
        calculation,
        Err(vec![Error::new(ErrorKinds::MultipleComma, vec![6, 3])])
    )
}

#[test]
fn tokenize_shift_left_float_number_with_multiple_comma() {
    let calculation = lexed("150 131.05.");
    assert_eq!(
        calculation,
        Err(vec![Error::new(ErrorKinds::MultipleComma, vec![10, 7])])
    )
}

#[test]
fn tokenize_shift_right_float_number_with_multiple_comma() {
    let calculation = lexed("131.05. 150");
    assert_eq!(
        calculation,
        Err(vec![Error::new(ErrorKinds::MultipleComma, vec![6, 3])])
    )
}

#[test]
fn tokenize_multiple_float_number_with_multiple_comma() {
    let calculation = lexed("151.64. + 99.66.33.11");
    assert_eq!(
        calculation,
        Err(vec![
            Error::new(ErrorKinds::MultipleComma, vec![6, 3]),
            Error::new(ErrorKinds::MultipleComma, vec![18, 15, 12]),
        ])
    )
}

#[test]
fn tokenize_multiple_number() {
    let caluctation = lexed("177 013");
    assert_eq!(caluctation, Ok(vec![number(177., 0), number(13., 4)]));
}

#[test]
fn tokenize_double_slash() {
    let calculation = lexed("2 // 3");
    assert_eq!(
        calculation,
        Ok(vec![number(2., 0), op(Operator::FDiv, 2), number(3., 5)])
    )
}

#[test]
fn tokenize_triple_slash() {
    let calculation = lexed("2 /// 3");
    assert_eq!(
        calculation,
        Ok(vec![
            number(2., 0),
            op(Operator::FDiv, 2),
            op(Operator::Div, 4),
            number(3., 6),
        ])
    )
}

#[test]
fn tokenize_all_operators() {
    let calculation = lexed("/ * - + % ~ ^ //");
    assert_eq!(
        calculation,
        Ok(vec![
            op(Operator::Div, 0),
            op(Operator::Mul, 2),
            op(Operator::Sub, 4),
            op(Operator::Add, 6),
            op(Operator::Mod, 8),
            op(Operator::FDiv, 10),
            op(Operator::Pow, 12),
            op(Operator::FDiv, 14),
        ])
    )
}

#[test]
fn tokenize_ident_and_number() {
    let calculation = lexed("sin452~2aB cd+PI-8");
    assert_eq!(
        calculation,
        Ok(vec![
            ident("sin452", 0),
            op(Operator::FDiv, 6),
            number(2., 7),
            ident("aB", 8),
            ident("cd", 11),
            op(Operator::Add, 13),
            ident("PI", 14),
            op(Operator::Sub, 16),
            number(8., 17),
        ])
    )
}

#[test]
fn tokenize_complex_calculation() {
    let calculation = lexed("sin(5E-2) - 1/2(366^3) // 31 ~ 5");
    assert_eq!(
        calculation,
        Ok(vec![
            ident("sin", 0),
            (Kind::LBrack, 3),
            number(5., 4),
            ident("E", 5),
            op(Operator::Sub, 6),
            number(2., 7),
            (Kind::RBrack, 8),
            op(Operator::Sub, 10),
            number(1., 12),
            op(Operator::Div, 13),
            number(2., 14),
            (Kind::LBrack, 15),
            number(366., 16),
            op(Operator::Pow, 19),
            number(3., 20),
            (Kind::RBrack, 21),
            op(Operator::FDiv, 23),
            number(31., 26),
            op(Operator::FDiv, 29),
            number(5., 31),
        ])
    );
}
