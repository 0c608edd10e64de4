use maph::ast::consts::Const;
use maph::ast::expr::Expr;
use maph::ast::function::{Function, FunctionKind};
use maph::ast::token::number::Decimal;
use maph::ast::token::operator::Operator;
use maph::ast::token::{Token, TokenKind, Tokenize};
use maph::eval::host::{Arithmetic, Evaluation};
use maph::eval::{check_binary, check_call, Eval, Operand};
use maph::maph_error::{Error, ErrorKinds};
use maph::parse::Parse;
use maph::utils::DedupReplaceFor;
use std::str::FromStr;

fn number(text: &str) -> Decimal {
    Decimal::parse(text).unwrap()
}

fn negative(text: &str) -> Decimal {
    Decimal::parse(text).unwrap().negated()
}

fn num(text: &str, span: usize) -> Token {
    Token::new(TokenKind::Number(number(text)), span)
}

fn op(o: Operator, span: usize) -> Token {
    Token::new(TokenKind::Op(o), span)
}

fn ident(name: &str, span: usize) -> Token {
    Token::new(TokenKind::Ident(name.to_owned()), span)
}

fn node(l: Expr, o: Operator, r: Expr) -> Expr {
    Expr::Node(Box::new(maph::ast::tree::TreeNode {
        l_expr: l,
        op: o,
        r_expr: r,
    }))
}

fn lit(text: &str, span: usize) -> Expr {
    Expr::Number(number(text), span)
}

const QUIET: Operand = Operand {
    zero: false,
    negative: false,
    below_minus_one: false,
    above_one: false,
};

#[test]
fn operator_from_its_spelling() {
    assert_eq!(Operator::from_str("+"), Ok(Operator::Add));
    assert_eq!(Operator::from_str("-"), Ok(Operator::Sub));
    assert_eq!(Operator::from_str("*"), Ok(Operator::Mul));
    assert_eq!(Operator::from_str("/"), Ok(Operator::Div));
    assert_eq!(Operator::from_str("^"), Ok(Operator::Pow));
    assert_eq!(Operator::from_str("%"), Ok(Operator::Mod));
    assert_eq!(Operator::from_str("//"), Ok(Operator::FDiv));
    assert_eq!(Operator::from_str("~"), Ok(Operator::FDiv));
    assert_eq!("%".parse::<Operator>(), Ok(Operator::Mod));
    assert_eq!("(".parse::<TokenKind>(), Ok(TokenKind::LBrack));
}

#[test]
fn operator_from_another_text() {
    assert_eq!(
        Operator::from_str("**"),
        Err("Try to create an Operator from an unkwon &str : `**`".to_owned())
    );
    assert_eq!(
        Operator::from_str(""),
        Err("Try to create an Operator from an unkwon &str : ``".to_owned())
    );
    assert!(Operator::from_str("///").is_err());
    assert!(Operator::from_str("+ ").is_err());
}

#[test]
fn decimal_literals() {
    for text in ["0", "5", "013", "5.", ".5", "4.25", "1e5", "1E5", "2.5e-3", "7e+2", ".5E1"] {
        let d = Decimal::parse(text).unwrap();
        assert_eq!(d.text(), text);
        assert!(!d.is_negative());
    }
    for text in [
        "", ".", "-5", "+5", "1e", "1e+", "e5", "1.2.3", "inf", "nan", "1 ", " 1", "1e5x", "1..",
        "0x10", "1_000",
    ] {
        assert_eq!(Decimal::parse(text), None, "{text}");
    }
}

#[test]
fn decimal_sign() {
    let d = number("2.5");
    let n = d.duplicate().negated();
    assert!(n.is_negative());
    assert_eq!(n.text(), "2.5");
    assert_eq!(n.negated(), d);
}

#[test]
fn token_kind_of_a_text() {
    assert_eq!(
        TokenKind::from_str("12.5"),
        Ok(TokenKind::Number(number("12.5")))
    );
    assert_eq!(TokenKind::from_str("//"), Ok(TokenKind::Op(Operator::FDiv)));
    assert_eq!(TokenKind::from_str("~"), Ok(TokenKind::Op(Operator::FDiv)));
    assert_eq!(TokenKind::from_str("("), Ok(TokenKind::LBrack));
    assert_eq!(TokenKind::from_str(")"), Ok(TokenKind::RBrack));
    assert_eq!(
        TokenKind::from_str("aB9"),
        Ok(TokenKind::Ident("aB9".to_owned()))
    );
    assert_eq!(
        TokenKind::from_str("inf"),
        Ok(TokenKind::Ident("inf".to_owned()))
    );
}

#[test]
fn token_kind_of_a_wrong_text() {
    assert_eq!(
        TokenKind::from_str("1.2.3."),
        Err(Error::new(ErrorKinds::MultipleComma, vec![0, 2, 4]))
    );
    assert_eq!(
        TokenKind::from_str("a.b.c"),
        Err(Error::new(ErrorKinds::MultipleComma, vec![1, 3]))
    );
    for text in ["", ".", "9a", "a.b", "a b", "+-", "-5", "()", "é", "a_b"] {
        assert_eq!(
            TokenKind::from_str(text),
            Err(Error::new(
                ErrorKinds::UnknowOperator(text.to_owned()),
                vec![]
            )),
            "{text}"
        );
    }
}

#[test]
fn classify_takes_the_answer_of_the_pattern() {
    assert_eq!(
        TokenKind::classify("abc", true),
        Ok(TokenKind::Ident("abc".to_owned()))
    );
    assert_eq!(
        TokenKind::classify("abc", false),
        Err(Error::new(
            ErrorKinds::UnknowOperator("abc".to_owned()),
            vec![]
        ))
    );
    assert_eq!(
        TokenKind::classify("12", true),
        Ok(TokenKind::Number(number("12")))
    );
    assert_eq!(TokenKind::classify("+", true), Ok(TokenKind::Op(Operator::Add)));
}

#[test]
fn add_span_counts_from_the_start() {
    let mut e = Error::new(ErrorKinds::MultipleComma, vec![0, 3, 6]);
    e.add_span(6);
    assert_eq!(e, Error::new(ErrorKinds::MultipleComma, vec![6, 3, 0]));
    let mut empty = Error::new(ErrorKinds::UnclosedBrack, vec![]);
    empty.add_span(0);
    assert_eq!(empty, Error::new(ErrorKinds::UnclosedBrack, vec![]));
}

#[test]
fn white_space_around_the_content() {
    let tokens = "\t\n 1 +  2 \u{a0}\n".tokenize().unwrap();
    assert_eq!(tokens, vec![num("1", 3), op(Operator::Add, 5), num("2", 8)]);
    assert_eq!(
        "1\t2".tokenize(),
        Err(vec![Error::new(ErrorKinds::InvalideChar('\t'), vec![1])])
    );
    assert_eq!("".tokenize(), Ok(vec![]));
    assert_eq!(" \t ".tokenize(), Ok(vec![]));
}

#[test]
fn comma_is_a_decimal_point() {
    assert_eq!("1,5".tokenize(), Ok(vec![num("1.5", 0)]));
    assert_eq!(
        "1,5,".tokenize(),
        Err(vec![Error::new(ErrorKinds::MultipleComma, vec![3, 1])])
    );
}

#[test]
fn slashes_pair_from_the_left() {
    assert_eq!(
        "1////2".tokenize(),
        Ok(vec![
            num("1", 0),
            op(Operator::FDiv, 1),
            op(Operator::FDiv, 3),
            num("2", 5)
        ])
    );
    assert_eq!(
        "1/ /2".tokenize(),
        Ok(vec![
            num("1", 0),
            op(Operator::Div, 1),
            op(Operator::Div, 3),
            num("2", 4)
        ])
    );
    assert_eq!(
        "/////".tokenize(),
        Ok(vec![
            op(Operator::FDiv, 0),
            op(Operator::FDiv, 2),
            op(Operator::Div, 4)
        ])
    );
}

#[test]
fn errors_of_buffers_follow_those_of_characters() {
    assert_eq!(
        "1.2.3 $ a.b . #".tokenize(),
        Err(vec![
            Error::new(ErrorKinds::InvalideChar('$'), vec![6]),
            Error::new(ErrorKinds::InvalideChar('#'), vec![14]),
            Error::new(ErrorKinds::MultipleComma, vec![3, 1]),
            Error::new(ErrorKinds::UnknowOperator("a.b".to_owned()), vec![]),
            Error::new(ErrorKinds::UnknowOperator(".".to_owned()), vec![]),
        ])
    );
}

#[test]
fn points_around_an_invalid_character() {
    assert_eq!(
        "1.$2.".tokenize(),
        Err(vec![
            Error::new(ErrorKinds::InvalideChar('$'), vec![2]),
            Error::new(ErrorKinds::MultipleComma, vec![4, 1]),
        ])
    );
}

#[test]
fn verify_scoping_alone() {
    assert_eq!("(1)(2)".tokenize().unwrap().verify_scoping(), Ok(()));
    assert_eq!(
        "(1))(".tokenize().unwrap().verify_scoping(),
        Err(vec![Error::new(ErrorKinds::UnexeptedBrack, vec![3])])
    );
    assert_eq!(
        "(1)((2)(".tokenize().unwrap().verify_scoping(),
        Err(vec![Error::new(ErrorKinds::UnclosedBrack, vec![3, 7])])
    );
}

#[test]
fn verify_operator_alone() {
    assert_eq!("1 + 2 * 3".tokenize().unwrap().verify_operator(), Ok(()));
    assert_eq!("+".tokenize().unwrap().verify_operator(), Ok(()));
    assert_eq!(
        "1 + * 2 / ^ % 3".tokenize().unwrap().verify_operator(),
        Err(vec![
            Error::new(ErrorKinds::UnexeptedOperator(Operator::Add), vec![2]),
            Error::new(ErrorKinds::UnexeptedOperator(Operator::Div), vec![8]),
        ])
    );
}

#[test]
fn concat_minus_and_number_alone() {
    let mut tokens = "3 - - 4 - x - (2) --1".tokenize().unwrap();
    tokens.concat_minus_and_number();
    assert_eq!(
        tokens,
        vec![
            num("3", 0),
            Token::new(TokenKind::Number(number("4")), 6),
            op(Operator::Sub, 8),
            ident("x", 10),
            op(Operator::Sub, 12),
            Token::new(TokenKind::LBrack, 14),
            num("2", 15),
            Token::new(TokenKind::RBrack, 16),
            Token::new(TokenKind::Number(number("1")), 20),
        ]
    );
    let mut odd = "---7".tokenize().unwrap();
    odd.concat_minus_and_number();
    assert_eq!(odd, vec![Token::new(TokenKind::Number(negative("7")), 3)]);
}

#[test]
fn verify_fonction_name_alone() {
    let names = "sqrt cbrq abs sin cos tan asin acos atan ln log logb round floor ceil trunc frac deg rad pi PI Pi e E inf INF";
    assert_eq!(names.tokenize().unwrap().verify_fonction_name(), Ok(()));
    assert_eq!(
        "Sin cbrt x pie".tokenize().unwrap().verify_fonction_name(),
        Err(vec![
            Error::new(ErrorKinds::UnknowFonction("Sin".to_owned()), vec![0]),
            Error::new(ErrorKinds::UnknowFonction("cbrt".to_owned()), vec![4]),
            Error::new(ErrorKinds::UnknowFonction("x".to_owned()), vec![9]),
            Error::new(ErrorKinds::UnknowFonction("pie".to_owned()), vec![11]),
        ])
    );
}

#[test]
fn names_of_functions_and_constants() {
    assert_eq!(FunctionKind::from_name("sqrt"), Some(FunctionKind::Sqrt));
    assert_eq!(FunctionKind::from_name("cbrq"), Some(FunctionKind::Cbrq));
    assert_eq!(FunctionKind::from_name("logb"), Some(FunctionKind::LogBased));
    assert_eq!(FunctionKind::from_name("rad"), Some(FunctionKind::Rad));
    assert_eq!(FunctionKind::from_name("Sqrt"), None);
    assert_eq!(FunctionKind::from_name(""), None);
    assert_eq!(Const::from_name("pI", 4), Some(Const::Pi(4)));
    assert_eq!(Const::from_name("E", 1), Some(Const::E(1)));
    assert_eq!(Const::from_name("Inf", 0), Some(Const::Inf(0)));
    assert_eq!(Const::from_name("p", 0), None);
    assert_eq!(Const::from_name("ſ", 0), None);
    assert_eq!(Const::Inf(9).span(), 9);
}

#[test]
fn parse_add() {
    let expr: Expr = "2 + 3".parse().unwrap();
    assert_eq!(expr, node(lit("2", 0), Operator::Add, lit("3", 4)))
}

#[test]
fn parse_groups_by_rank() {
    assert_eq!(
        Expr::from_str("1+2*3^4"),
        Ok(node(
            lit("1", 0),
            Operator::Add,
            node(
                lit("2", 2),
                Operator::Mul,
                node(lit("3", 4), Operator::Pow, lit("4", 6))
            )
        ))
    );
    assert_eq!(
        Expr::from_str("8/4/2"),
        Ok(node(
            node(lit("8", 0), Operator::Div, lit("4", 2)),
            Operator::Div,
            lit("2", 4)
        ))
    );
    assert_eq!(
        Expr::from_str("2^3^2"),
        Ok(node(
            lit("2", 0),
            Operator::Pow,
            node(lit("3", 2), Operator::Pow, lit("2", 4))
        ))
    );
    assert_eq!(
        Expr::from_str("1 - pi"),
        Ok(node(lit("1", 0), Operator::Sub, Expr::Const(Const::Pi(4))))
    );
}

#[test]
fn parse_calls_and_brackets() {
    assert_eq!(
        Expr::from_str("2(3)"),
        Ok(node(lit("2", 0), Operator::Mul, lit("3", 2)))
    );
    assert_eq!(
        Expr::from_str("sin(1)cos(2)"),
        Ok(node(
            Expr::Function(Box::new(Function::Sin(lit("1", 4), 0))),
            Operator::Mul,
            Expr::Function(Box::new(Function::Cos(lit("2", 10), 6)))
        ))
    );
    assert_eq!(
        Expr::from_str("logb 2 (8)"),
        Ok(Expr::Function(Box::new(Function::LogBased(
            lit("8", 8),
            number("2"),
            0
        ))))
    );
    assert_eq!(
        Expr::from_str("sqrt(2"),
        Err(vec![Error::new(ErrorKinds::UnclosedBrack, vec![4])])
    );
}

#[test]
fn parse_of_tokens_that_were_not_validated() {
    assert_eq!(
        vec![num("1", 0), Token::new(TokenKind::RBrack, 1)].parse(),
        Err(vec![Error::new(ErrorKinds::UnexeptedBrack, vec![1])])
    );
    assert_eq!(
        vec![Token::new(TokenKind::LBrack, 0), num("1", 1)].parse(),
        Err(vec![Error::new(ErrorKinds::UnclosedBrack, vec![0])])
    );
    assert_eq!(
        vec![Token::new(TokenKind::LBrack, 0)].parse(),
        Err(vec![Error::new(ErrorKinds::UnclosedBrack, vec![0])])
    );
    assert_eq!(
        vec![ident("foo", 0)].parse(),
        Err(vec![Error::new(
            ErrorKinds::UnknowFonction("foo".to_owned()),
            vec![0]
        )])
    );
    assert_eq!(
        vec![num("1", 0), op(Operator::Add, 1), op(Operator::Mul, 2)].parse(),
        Err(vec![Error::new(
            ErrorKinds::UnexeptedOperator(Operator::Mul),
            vec![2]
        )])
    );
    assert_eq!(
        Vec::<Token>::new().parse(),
        Err(vec![Error::new(
            ErrorKinds::UnknowOperator(String::new()),
            vec![]
        )])
    );
}

#[test]
fn function_parts() {
    let f = Function::build(FunctionKind::LogBased, lit("8", 8), Some(number("2")), 0);
    assert_eq!(f, Function::LogBased(lit("8", 8), number("2"), 0));
    assert_eq!(f.kind(), FunctionKind::LogBased);
    assert_eq!(f.argument(), &lit("8", 8));
    assert_eq!(f.base(), Some(&number("2")));
    assert_eq!(f.span(), 0);
    let g = Function::build(FunctionKind::Frac, lit("1", 5), None, 3);
    assert_eq!(g, Function::Frac(lit("1", 5), 3));
    assert_eq!(g.base(), None);
}

fn traced(input: &str, zero: &str, negative: &str) -> Result<(String, usize), Error> {
    let tree = Expr::from_str(input).unwrap();
    let host = Arithmetic {
        literal: |d: &Decimal| {
            if d.is_negative() {
                format!("-{}", d.text())
            } else {
                d.text().to_owned()
            }
        },
        constant: |c: Const| format!("{:?}", c),
        observe: |v: &String| Operand {
            zero: v == zero,
            negative: v == negative,
            below_minus_one: false,
            above_one: false,
        },
        binary: |op: Operator, l: String, r: String| format!("({l} {:?} {r})", op),
        call: |kind: FunctionKind, base: Option<&Decimal>, x: String| match base {
            Some(b) => format!("{:?}[{}]({x})", kind, b.text()),
            None => format!("{:?}({x})", kind),
        },
    };
    Evaluation::new(&tree, &host).eval()
}

#[test]
fn evaluation_walks_the_tree_in_post_order() {
    assert_eq!(
        traced("1 + sqrt(4) * 3", "", ""),
        Ok(("(1 Add (Sqrt(4) Mul 3))".to_owned(), 0))
    );
    assert_eq!(
        traced("logb 3 (e) ^ -2", "", ""),
        Ok(("(LogBased[3](E(8)) Pow -2)".to_owned(), 0))
    );
    assert_eq!(traced("(7)", "", ""), Ok(("7".to_owned(), 1)));
}

#[test]
fn evaluation_fails_where_the_host_finds_a_wrong_operand() {
    assert_eq!(
        traced("8 / (2 ~ 4)", "4", ""),
        Err(Error::new(ErrorKinds::ModuloByZero, vec![9]))
    );
    assert_eq!(
        traced("8 / (2 ~ 4)", "(2 FDiv 4)", ""),
        Err(Error::new(ErrorKinds::DivisionByZero, vec![5]))
    );
    assert_eq!(
        traced("sqrt(9) / sqrt(5)", "Sqrt(5)", "9"),
        Err(Error::new(ErrorKinds::NegativeSqrt, vec![0]))
    );
    assert_eq!(
        traced("sqrt(9) / sqrt(5)", "Sqrt(5)", "5"),
        Err(Error::new(ErrorKinds::NegativeSqrt, vec![10]))
    );
    assert_eq!(
        traced("sqrt(9) / sqrt(5)", "Sqrt(5)", ""),
        Err(Error::new(ErrorKinds::DivisionByZero, vec![10]))
    );
}

#[test]
fn every_node_evaluates_by_itself() {
    let host = Arithmetic {
        literal: |d: &Decimal| d.text().len() as i64,
        constant: |_: Const| 100i64,
        observe: |v: &i64| Operand {
            zero: *v == 0,
            negative: *v < 0,
            below_minus_one: *v < -1,
            above_one: *v > 1,
        },
        binary: |_: Operator, l: i64, r: i64| l - r,
        call: |_: FunctionKind, _: Option<&Decimal>, x: i64| -x,
    };
    assert_eq!(Const::E(3).eval_with(&host), Ok((100, 3)));
    let tree = maph::ast::tree::TreeNode {
        l_expr: lit("22", 5),
        op: Operator::Div,
        r_expr: lit("333", 9),
    };
    assert_eq!(tree.eval_with(&host), Ok((-1, 5)));
    let same = maph::ast::tree::TreeNode {
        l_expr: lit("22", 5),
        op: Operator::Div,
        r_expr: node(lit("1", 9), Operator::Sub, lit("2", 11)),
    };
    assert_eq!(
        same.eval_with(&host),
        Err(Error::new(ErrorKinds::DivisionByZero, vec![9]))
    );
    let root = Function::Sqrt(Expr::Function(Box::new(Function::Abs(lit("7", 9), 5))), 0);
    assert_eq!(
        root.eval_with(&host),
        Err(Error::new(ErrorKinds::NegativeSqrt, vec![0]))
    );
    assert_eq!(Function::Abs(lit("7", 9), 5).eval_with(&host), Ok((-1, 5)));
    assert_eq!(lit("4444", 2).eval_with(&host), Ok((4, 2)));
}

#[test]
fn checks_of_an_operation() {
    let zero = Operand { zero: true, ..QUIET };
    let negative = Operand {
        negative: true,
        ..QUIET
    };
    let low = Operand {
        negative: true,
        below_minus_one: true,
        ..QUIET
    };
    let high = Operand {
        above_one: true,
        ..QUIET
    };
    assert_eq!(check_binary(Operator::Div, &QUIET, 5), Ok(()));
    assert_eq!(
        check_binary(Operator::Div, &zero, 5),
        Err(Error::new(ErrorKinds::DivisionByZero, vec![5]))
    );
    assert_eq!(
        check_binary(Operator::FDiv, &zero, 5),
        Err(Error::new(ErrorKinds::ModuloByZero, vec![5]))
    );
    assert_eq!(check_binary(Operator::Mod, &zero, 5), Ok(()));
    assert_eq!(check_binary(Operator::Mul, &zero, 5), Ok(()));
    assert_eq!(
        check_call(FunctionKind::Sqrt, &negative, 7),
        Err(Error::new(ErrorKinds::NegativeSqrt, vec![7]))
    );
    assert_eq!(check_call(FunctionKind::Sqrt, &zero, 7), Ok(()));
    assert_eq!(check_call(FunctionKind::Ln, &negative, 7), Ok(()));
    assert_eq!(
        check_call(FunctionKind::ArcSin, &low, 7),
        Err(Error::new(ErrorKinds::NotInRange(-1, 1), vec![7]))
    );
    assert_eq!(
        check_call(FunctionKind::ArcCos, &high, 7),
        Err(Error::new(ErrorKinds::NotInRange(-1, 1), vec![7]))
    );
    assert_eq!(check_call(FunctionKind::ArcTan, &high, 7), Ok(()));
}

#[test]
fn offset_of_a_value() {
    assert_eq!(Expr::from_str("(1 + 2) ^ 2").unwrap().span(), 1);
    assert_eq!(Expr::from_str("sin(1) - 2").unwrap().span(), 0);
    assert_eq!(Expr::from_str(" pi").unwrap().span(), 1);
}

#[test]
fn dedup_and_replace_for_groups_from_the_left() {
    let mut v = vec![1, 1, 1, 2, 1, 1, 3, 1];
    v.dedup_and_replace_for(&1, 9, 2);
    assert_eq!(v, vec![9, 1, 2, 9, 3, 1]);
    let mut w = vec![1, 1, 1, 1, 1];
    w.dedup_and_replace_for(&1, 0, 3);
    assert_eq!(w, vec![0, 1, 1]);
    let mut single = vec![4, 5, 4];
    single.dedup_and_replace_for(&4, 7, 1);
    assert_eq!(single, vec![7, 5, 7]);
    let mut all = vec![4, 5, 6];
    all.dedup_and_replace_for(&4, 7, 0);
    assert_eq!(all, vec![7, 7, 7]);
    let mut none: Vec<i32> = vec![];
    none.dedup_and_replace_for(&4, 7, 2);
    assert_eq!(none, Vec::<i32>::new());
    let mut long = vec![2, 2];
    long.dedup_and_replace_for(&2, 7, 3);
    assert_eq!(long, vec![2, 2]);
}

#[test]
fn dedup_and_replace_for_by_a_predicate() {
    let mut v = vec![2, 4, 6, 1, 8, 3];
    v.dedup_and_replace_for_by(0, |x| x % 2 == 0, 2);
    assert_eq!(v, vec![0, 6, 1, 8, 3]);
}

#[test]
fn dedup_and_replace_for_by_a_key() {
    let mut v = vec![(0, 'a'), (1, 'a'), (2, 'b'), (3, 'a')];
    v.dedup_and_replace_for_by_key(&'a', (9, 'z'), 2, |p| &p.1);
    assert_eq!(v, vec![(9, 'z'), (2, 'b'), (3, 'a')]);
}

#[test]
fn dedup_and_replace_for_then_build_from_the_last() {
    let mut v = vec![5, 5, 1, 5, 5, 5];
    v.dedup_and_replace_for_then_build(&5, 2, |x| x * 10);
    assert_eq!(v, vec![50, 1, 50, 5]);
}

#[test]
fn dedup_and_replace_for_by_key_then_build_from_the_last() {
    let mut v = vec![(0, '/'), (1, '/'), (2, '/'), (3, 'x'), (4, '/'), (5, '/')];
    v.dedup_and_replace_for_by_key_then_build(&'/', 2, |p| &p.1, |p| (p.0 - 1, '~'));
    assert_eq!(v, vec![(0, '~'), (2, '/'), (3, 'x'), (4, '~')]);
}

#[test]
fn dedup_and_replace_for_by_then_build_from_the_last() {
    let mut v = vec![1, 2, 3, 10, 4, 5];
    v.dedup_and_replace_for_by_then_build(3, |x| *x < 10, |x| x + 100);
    assert_eq!(v, vec![103, 10, 4, 5]);
    let mut all = vec![1, 2];
    all.dedup_and_replace_for_by_then_build(0, |x| *x > 100, |x| x + 1);
    assert_eq!(all, vec![2, 3]);
}
