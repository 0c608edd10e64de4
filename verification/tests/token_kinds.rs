use maph::ast::token::number::Decimal;
use maph::ast::token::operator::Operator;
use maph::ast::token::{TokenKind, Tokenize};

#[derive(Debug, PartialEq)]
enum Token {
    Number(f64),
    Op(Operator),
    Ident(String),
    LBrack,
    RBrack,
}

fn value(d: &Decimal) -> f64 {
    let magnitude: f64 = d.text().parse().unwrap();
    if d.is_negative() {
        -magnitude
    } else {
        magnitude
    }
}

fn kinds(input: &str) -> Vec<Token> {
    input
        .tokenize()
        .unwrap()
        .into_iter()
        .map(|t| match t.token_kind {
            TokenKind::Number(d) => Token::Number(value(&d)),
            TokenKind::Op(op) => Token::Op(op),
            TokenKind::Ident(name) => Token::Ident(name),
            TokenKind::LBrack => Token::LBrack,
            TokenKind::RBrack => Token::RBrack,
        })
        .collect()
}

#[test]
fn token_tokenize_simple_addition() {
    let calculation = kinds("1 + 2");
    assert_eq!(
        calculation,
        vec![Token::Number(1.), Token::Op(Operator::Add), Token::Number(2.)]
    )
}

#[test]
fn token_tokenize_multiple_scope() {
    let calcuation = kinds("(2 - ((0) * 2))()((");
    assert_eq!(
        calcuation,
        vec![
            Token::LBrack,
            Token::Number(2.),
            Token::Op(Operator::Sub),
            Token::LBrack,
            Token::LBrack,
            Token::Number(0.),
            Token::RBrack,
            Token::Op(Operator::Mul),
            Token::Number(2.),
            Token::RBrack,
            Token::RBrack,
            Token::LBrack,
            Token::RBrack,
            Token::LBrack,
            Token::LBrack,
        ]
    )
}

#[test]
fn token_tokenize_float_number() {
    let calculation = kinds("42.69");
    assert_eq!(calculation, vec![Token::Number(42.69)])
}

#[test]
fn token_tokenize_float_number_without_decimal_part() {
    let calculation = kinds("13105.");
    assert_eq!(calculation, vec![Token::Number(13105.)])
}

#[test]
fn token_tokenize_double_slash() {
    let calculation = kinds("2 // 3");
    assert_eq!(
        calculation,
        vec![
            Token::Number(2.),
            Token::Op(Operator::FDiv),
            Token::Number(3.)
        ]
    )
}

#[test]
fn token_tokenize_triple_slash() {
    let calculation = kinds("2 /// 3");
    assert_eq!(
        calculation,
        vec![
            Token::Number(2.),
            Token::Op(Operator::FDiv),
            Token::Op(Operator::Div),
            Token::Number(3.)
        ]
    )
}

#[test]
fn token_tokenize_all_operators() {
    let calculation = kinds("/ * - + % ~ ^");
    assert_eq!(
        calculation,
        vec![
            Token::Op(Operator::Div),
            Token::Op(Operator::Mul),
            Token::Op(Operator::Sub),
            Token::Op(Operator::Add),
            Token::Op(Operator::Mod),
            Token::Op(Operator::FDiv),
            Token::Op(Operator::Pow),
        ]
    )
}

#[test]
fn identifiers_take_the_digits_that_follow_them() {
    let calculation = kinds("sin45aBcd+PI-8");
    assert_eq!(
        calculation,
        vec![
            Token::Ident("sin45aBcd".to_owned()),
            Token::Op(Operator::Add),
            Token::Ident("PI".to_owned()),
            Token::Op(Operator::Sub),
            Token::Number(8.)
        ]
    )
}
