use maph::ast::consts::Const;
use maph::ast::function::FunctionKind;
use maph::ast::token::number::Decimal;
use maph::ast::token::operator::Operator;
use maph::ast::token::{Token, TokenKind, Tokenize};
use maph::eval::host::{Arithmetic, Evaluation};
use maph::eval::{Eval, Operand};
use maph::maph_error::{Error, ErrorKinds};
use maph::parse::Parse;

fn literal(d: &Decimal) -> f64 {
    let magnitude: f64 = d.text().parse().unwrap();
    if d.is_negative() {
        -magnitude
    } else {
        magnitude
    }
}

fn observe(x: f64) -> Operand {
    Operand {
        zero: x == 0.,
        negative: x < 0.,
        below_minus_one: x < -1.,
        above_one: x > 1.,
    }
}

fn binary(op: Operator, l: f64, r: f64) -> f64 {
    match op {
        Operator::Add => l + r,
        Operator::Sub => l - r,
        Operator::Mul => l * r,
        Operator::Div => l / r,
        Operator::Pow => l.powf(r),
        Operator::Mod => l.rem_euclid(r),
        Operator::FDiv => (l / r).trunc(),
    }
}

fn call(kind: FunctionKind, base: Option<f64>, x: f64) -> f64 {
    match kind {
        FunctionKind::Sqrt => x.sqrt(),
        FunctionKind::Cbrq => x.cbrt(),
        FunctionKind::Abs => x.abs(),
        FunctionKind::Sin => x.sin(),
        FunctionKind::Cos => x.cos(),
        FunctionKind::Tan => x.tan(),
        FunctionKind::ArcSin => x.asin(),
        FunctionKind::ArcCos => x.acos(),
        FunctionKind::ArcTan => x.atan(),
        FunctionKind::Ln => x.ln(),
        FunctionKind::Log => x.log10(),
        FunctionKind::LogBased => {
            let b = base.unwrap();
            if (b - 2.).abs() <= f64::EPSILON {
                x.log2()
            } else if (b - 10.).abs() <= f64::EPSILON {
                x.log10()
            } else {
                x.log(b)
            }
        }
        FunctionKind::Round => x.round(),
        FunctionKind::Floor => x.floor(),
        FunctionKind::Ceil => x.ceil(),
        FunctionKind::Trunc => x.trunc(),
        FunctionKind::Frac => x.fract(),
        FunctionKind::Deg => x.to_degrees(),
        FunctionKind::Rad => x.to_radians(),
    }
}

fn constant(c: Const) -> f64 {
    match c {
        Const::Pi(_) => std::f64::consts::PI,
        Const::E(_) => std::f64::consts::E,
        Const::Inf(_) => f64::INFINITY,
    }
}

fn evaluate(input: &str) -> Result<(f64, usize), Vec<Error>> {
    let tokens = input.tokenize()?;
    let tokens = tokens.pre_parse()?;
    let tree = tokens.parse()?;
    let span = tree.span();
    let host = Arithmetic {
        literal: literal,
        constant: constant,
        observe: |x: &f64| observe(*x),
        binary: binary,
        call: |kind: FunctionKind, base: Option<&Decimal>, x: f64| call(kind, base.map(literal), x),
    };
    let result = Evaluation::new(&tree, &host).eval().map_err(|e| vec![e])?;
    assert_eq!(result.1, span);
    assert_eq!(
        tree.eval_with(&host).map(|r| r.0.to_bits()),
        Ok(result.0.to_bits())
    );
    Ok(result)
}

fn value_of(input: &str) -> f64 {
    evaluate(input).unwrap().0
}

fn shown(tokens: Vec<Token>) -> Vec<(String, usize)> {
    tokens
        .into_iter()
        .map(|t| {
            let text = match &t.token_kind {
                TokenKind::Number(d) => format!("{}", literal(d)),
                TokenKind::Op(op) => format!("{:?}", op),
                TokenKind::Ident(name) => name.clone(),
                TokenKind::LBrack => "(".to_owned(),
                TokenKind::RBrack => ")".to_owned(),
            };
            (text, t.span)
        })
        .collect()
}

#[test]
fn pre_parse_add() {
    let calculation = "2 + 3".tokenize().unwrap();
    let parsable = calculation.pre_parse().unwrap();
    assert_eq!(
        shown(parsable),
        vec![
            ("2".to_owned(), 0),
            ("Add".to_owned(), 2),
            ("3".to_owned(), 4)
        ]
    );
}

#[test]
fn precedence_of_product_over_sum() {
    assert_eq!(value_of("2+3*4"), 14.0);
    assert_eq!(value_of("2*3+4"), 10.0);
}

#[test]
fn power_groups_to_the_right() {
    assert_eq!(value_of("2^3^2"), 512.0);
}

#[test]
fn floor_division_and_remainder() {
    assert_eq!(value_of("10 // 3"), 3.0);
    assert_eq!(value_of("10 ~ 3"), 3.0);
    assert_eq!(value_of("10 % 3"), 1.0);
    assert_eq!(value_of("-7 % 3"), 2.0);
    assert_eq!(value_of("-7 // 2"), -3.0);
}

#[test]
fn minus_signs_fold_into_the_number() {
    assert_eq!(value_of("- - -5"), -5.0);
    assert_eq!(value_of("--5"), 5.0);
    assert_eq!(value_of("2 + - 3"), -1.0);
}

#[test]
fn implicit_multiplication() {
    assert_eq!(value_of("2(3+4)"), 14.0);
    assert_eq!(value_of("(1+1)(2+1)"), 6.0);
    assert_eq!(value_of("2 PI"), 2.0 * std::f64::consts::PI);
    assert_eq!(value_of("1/2(4)"), 2.0);
}

#[test]
fn division_by_zero_points_at_the_divisor() {
    assert_eq!(
        evaluate("5/0"),
        Err(vec![Error::new(ErrorKinds::DivisionByZero, vec![2])])
    );
    assert_eq!(
        evaluate("5 // 0"),
        Err(vec![Error::new(ErrorKinds::ModuloByZero, vec![5])])
    );
}

#[test]
fn negative_square_root() {
    assert_eq!(
        evaluate("sqrt(-1)"),
        Err(vec![Error::new(ErrorKinds::NegativeSqrt, vec![0])])
    );
    assert_eq!(value_of("sqrt(16)"), 4.0);
}

#[test]
fn arc_functions_outside_their_range() {
    assert_eq!(
        evaluate("1 + asin(2)"),
        Err(vec![Error::new(ErrorKinds::NotInRange(-1, 1), vec![4])])
    );
    assert_eq!(
        evaluate("acos(-1.5)"),
        Err(vec![Error::new(ErrorKinds::NotInRange(-1, 1), vec![0])])
    );
    assert_eq!(value_of("acos(1)"), 0.0);
}

#[test]
fn unmatched_brackets() {
    assert_eq!(
        evaluate("(2+3"),
        Err(vec![Error::new(ErrorKinds::UnclosedBrack, vec![0])])
    );
    assert_eq!(
        evaluate("2+3)"),
        Err(vec![Error::new(ErrorKinds::UnexeptedBrack, vec![3])])
    );
    assert_eq!(
        evaluate("((2+3"),
        Err(vec![Error::new(ErrorKinds::UnclosedBrack, vec![0, 1])])
    );
}

#[test]
fn multiple_decimal_points() {
    assert_eq!(
        evaluate("1.2.3"),
        Err(vec![Error::new(ErrorKinds::MultipleComma, vec![3, 1])])
    );
}

#[test]
fn invalid_characters_are_all_reported() {
    assert_eq!(
        evaluate("1 $ 2 # 3"),
        Err(vec![
            Error::new(ErrorKinds::InvalideChar('$'), vec![2]),
            Error::new(ErrorKinds::InvalideChar('#'), vec![6]),
        ])
    );
}

#[test]
fn same_input_same_result() {
    for input in ["sin(5E-2) + 1/2(366^3) // 31 ~ 5", "5/0", "1.2.3 $", "2^0.5"] {
        let first = evaluate(input);
        let second = evaluate(input);
        match (first, second) {
            (Ok(a), Ok(b)) => {
                assert_eq!(a.0.to_bits(), b.0.to_bits());
                assert_eq!(a.1, b.1);
            }
            (a, b) => assert_eq!(a, b),
        }
    }
}

#[test]
fn evaluation_stops_at_the_first_failure() {
    assert_eq!(
        evaluate("1/0 + sqrt(-1)"),
        Err(vec![Error::new(ErrorKinds::DivisionByZero, vec![2])])
    );
    assert_eq!(
        evaluate("sqrt(-4) / 0"),
        Err(vec![Error::new(ErrorKinds::NegativeSqrt, vec![0])])
    );
}

#[test]
fn result_carries_the_offset_of_the_left_operand() {
    assert_eq!(evaluate("  7 - (2)"), Ok((5.0, 2)));
    assert_eq!(evaluate("abs(-3)"), Ok((3.0, 0)));
    assert_eq!(evaluate("(2) ^ 2"), Ok((4.0, 1)));
}

#[test]
fn constants_in_any_case() {
    assert_eq!(value_of("pi"), std::f64::consts::PI);
    assert_eq!(value_of("Pi"), std::f64::consts::PI);
    assert_eq!(value_of("e"), std::f64::consts::E);
    assert_eq!(value_of("INF"), f64::INFINITY);
}

#[test]
fn functions_of_one_argument() {
    assert_eq!(value_of("cbrq(27)"), 3.0);
    assert_eq!(value_of("abs(-2.5)"), 2.5);
    assert_eq!(value_of("ln(e)"), 1.0);
    assert_eq!(value_of("log(1000)"), 3.0);
    assert_eq!(value_of("logb 2 (8)"), 3.0);
    assert_eq!(value_of("logb 10 (100)"), 2.0);
    assert_eq!(value_of("logb 3 (9)"), 9f64.log(3.));
    assert_eq!(value_of("round(2.5)"), 3.0);
    assert_eq!(value_of("floor(2.7)"), 2.0);
    assert_eq!(value_of("ceil(2.1)"), 3.0);
    assert_eq!(value_of("trunc(-2.7)"), -2.0);
    assert_eq!(value_of("frac(2.25)"), 0.25);
    assert_eq!(value_of("deg(pi)"), 180.0);
    assert_eq!(value_of("rad(180)"), std::f64::consts::PI);
    assert_eq!(value_of("sin(0)"), 0.0);
    assert_eq!(value_of("cos(0)"), 1.0);
    assert_eq!(value_of("tan(0)"), 0.0);
    assert_eq!(value_of("atan(0)"), 0.0);
    assert_eq!(value_of("asin(1)"), std::f64::consts::FRAC_PI_2);
}

#[test]
fn unknown_names_are_reported() {
    assert_eq!(
        evaluate("2 + foo(3) + SIN(1)"),
        Err(vec![
            Error::new(ErrorKinds::UnknowFonction("foo".to_owned()), vec![4]),
            Error::new(ErrorKinds::UnknowFonction("SIN".to_owned()), vec![13]),
        ])
    );
}

#[test]
fn operators_in_a_row_are_reported_once() {
    assert_eq!(
        evaluate("2 + * / 3 - ^ 4"),
        Err(vec![
            Error::new(ErrorKinds::UnexeptedOperator(Operator::Add), vec![2]),
            Error::new(ErrorKinds::UnexeptedOperator(Operator::Sub), vec![10]),
        ])
    );
}

#[test]
fn validation_gathers_the_errors_of_every_check() {
    assert_eq!(
        evaluate("(2 + * x"),
        Err(vec![
            Error::new(ErrorKinds::UnclosedBrack, vec![0]),
            Error::new(ErrorKinds::UnexeptedOperator(Operator::Add), vec![3]),
            Error::new(ErrorKinds::UnknowFonction("x".to_owned()), vec![7]),
        ])
    );
}

#[test]
fn syntax_errors_name_the_offending_token() {
    assert_eq!(
        evaluate("2 +"),
        Err(vec![Error::new(
            ErrorKinds::UnexeptedOperator(Operator::Add),
            vec![2]
        )])
    );
    assert_eq!(
        evaluate("* 2"),
        Err(vec![Error::new(
            ErrorKinds::UnexeptedOperator(Operator::Mul),
            vec![0]
        )])
    );
    assert_eq!(
        evaluate("()"),
        Err(vec![Error::new(ErrorKinds::UnexeptedBrack, vec![1])])
    );
    assert_eq!(
        evaluate("sin 2"),
        Err(vec![Error::new(
            ErrorKinds::UnknowFonction("sin".to_owned()),
            vec![0]
        )])
    );
    assert_eq!(
        evaluate("logb (8)"),
        Err(vec![Error::new(
            ErrorKinds::UnknowFonction("logb".to_owned()),
            vec![0]
        )])
    );
    assert_eq!(
        evaluate(""),
        Err(vec![Error::new(
            ErrorKinds::UnknowOperator(String::new()),
            vec![]
        )])
    );
    assert_eq!(
        evaluate("   "),
        Err(vec![Error::new(
            ErrorKinds::UnknowOperator(String::new()),
            vec![]
        )])
    );
}
