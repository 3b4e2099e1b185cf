use somen_language::error::{Expected, ParseError};
use somen_language::infix::{parse_expression, parse_level, Expr, Fixity, Grammar, Layer};
use somen_language::numeric::integer::IntegerLiteral;

fn chars(s: &str) -> Vec<char> {
    s.chars().collect()
}

fn layer(fixity: Fixity, operators: &[u8]) -> Layer {
    Layer { fixity, operators: operators.to_vec(), before: None, after: None }
}

fn grammar(layers: Vec<Layer>) -> Grammar<IntegerLiteral> {
    Grammar { atom: IntegerLiteral { radix: 10 }, plus_sign: false, open: b'(', close: b')', layers }
}

fn eval(e: &Expr<i64>) -> i64 {
    match e {
        Expr::Atom(v) => *v,
        Expr::Prefix(b'-', x) => -eval(x),
        Expr::Prefix(b'+', x) => eval(x),
        Expr::Postfix(x, b'!') => (1..=eval(x)).product(),
        Expr::Postfix(x, b'%') => eval(x) * 100,
        Expr::Infix(a, b'+', b) => eval(a) + eval(b),
        Expr::Infix(a, b'-', b) => eval(a) - eval(b),
        Expr::Infix(a, b'*', b) => eval(a) * eval(b),
        Expr::Infix(a, b'/', b) => eval(a) / eval(b),
        Expr::Infix(a, b'^', b) => eval(a).pow(eval(b) as u32),
        Expr::Infix(a, b'=', b) => (eval(a) == eval(b)) as i64,
        _ => unreachable!(),
    }
}

fn show(e: &Expr<i64>) -> String {
    match e {
        Expr::Atom(v) => format!("{v}"),
        Expr::Prefix(op, x) => format!("({}{})", *op as char, show(x)),
        Expr::Postfix(x, op) => format!("({}{})", show(x), *op as char),
        Expr::Infix(a, op, b) => format!("({}{}{})", show(a), *op as char, show(b)),
    }
}

fn arith() -> Grammar<IntegerLiteral> {
    grammar(vec![
        layer(Fixity::Prefix, b"-"),
        layer(Fixity::Left, b"*/"),
        layer(Fixity::Left, b"+-"),
    ])
}

fn run(g: &Grammar<IntegerLiteral>, text: &str) -> Result<Expr<i64>, ParseError> {
    parse_expression(g, &chars(text))
}

#[test]
fn arithmetic_with_precedence_and_brackets() {
    let e = run(&arith(), "-1*(3+4)-4*3/6").unwrap();
    assert_eq!(eval(&e), -9);
    assert_eq!(show(&e), "(((-1)*(3+4))-((4*3)/6))");
}

#[test]
fn left_layer_groups_from_the_left() {
    let g = grammar(vec![layer(Fixity::Left, b"-")]);
    let e = run(&g, "10-3-2").unwrap();
    assert_eq!(eval(&e), 5);
    assert_eq!(show(&e), "((10-3)-2)");
}

#[test]
fn right_layer_groups_from_the_right() {
    let g = grammar(vec![layer(Fixity::Right, b"^"), layer(Fixity::Left, b"+")]);
    let e = run(&g, "2^3^2").unwrap();
    assert_eq!(eval(&e), 512);
    assert_eq!(show(&e), "(2^(3^2))");
    let e = run(&g, "1+2^3^2+1").unwrap();
    assert_eq!(eval(&e), 514);
}

#[test]
fn prefix_operators_nearest_first() {
    let g = grammar(vec![layer(Fixity::Prefix, b"-+")]);
    let e = run(&g, "-+-5").unwrap();
    assert_eq!(show(&e), "(-(+(-5)))");
    assert_eq!(eval(&e), 5);
}

#[test]
fn prefix_once_takes_one_operator() {
    let g = grammar(vec![layer(Fixity::PrefixOnce, b"+")]);
    assert_eq!(show(&run(&g, "+5").unwrap()), "(+5)");
    assert_eq!(show(&run(&g, "5").unwrap()), "5");
    assert_eq!(run(&g, "++5").err(), Some(ParseError { position: 1, expected: Expected::Digit(10) }));
}

#[test]
fn postfix_operators_apply_in_order() {
    let g = grammar(vec![layer(Fixity::Postfix, b"!%")]);
    let e = run(&g, "3!%").unwrap();
    assert_eq!(show(&e), "((3!)%)");
    assert_eq!(eval(&e), 600);
}

#[test]
fn postfix_once_takes_one_operator() {
    let g = grammar(vec![layer(Fixity::PostfixOnce, b"!")]);
    assert_eq!(show(&run(&g, "3!").unwrap()), "(3!)");
    assert_eq!(run(&g, "3!!").err(), Some(ParseError { position: 2, expected: Expected::End }));
}

#[test]
fn binary_layer_takes_one_operator() {
    let g = grammar(vec![layer(Fixity::Left, b"+"), layer(Fixity::Binary, b"=")]);
    let e = run(&g, "1+2=3").unwrap();
    assert_eq!(show(&e), "((1+2)=3)");
    assert_eq!(eval(&e), 1);
    assert_eq!(run(&g, "1=1=1").err(), Some(ParseError { position: 3, expected: Expected::End }));
}

#[test]
fn binary_layer_with_operand_levels() {
    let mut assign = layer(Fixity::Binary, b"=");
    assign.after = Some(2);
    let g = grammar(vec![layer(Fixity::Left, b"+"), assign]);
    let e = run(&g, "1=2=3").unwrap();
    assert_eq!(show(&e), "(1=(2=3))");
    let mut tight = layer(Fixity::Binary, b"=");
    tight.before = Some(0);
    let g = grammar(vec![layer(Fixity::Left, b"+"), tight]);
    assert_eq!(run(&g, "1+2=3").err(), Some(ParseError { position: 1, expected: Expected::End }));
}

#[test]
fn operator_without_operand_is_left_unread() {
    let g = grammar(vec![layer(Fixity::Left, b"+")]);
    let input = chars("1+2+");
    let (e, end) = parse_level(&g, &input, 0, 1).unwrap();
    assert_eq!(show(&e), "(1+2)");
    assert_eq!(end, 3);
    let whole: Result<Expr<i64>, ParseError> = parse_expression(&g, &input);
    assert_eq!(whole.err(), Some(ParseError { position: 3, expected: Expected::End }));
}

#[test]
fn unclosed_bracket_fails() {
    assert_eq!(
        run(&arith(), "(1+2").err(),
        Some(ParseError { position: 4, expected: Expected::Character(b')') })
    );
    assert_eq!(run(&arith(), "").err(), Some(ParseError { position: 0, expected: Expected::Digit(10) }));
}

#[test]
fn signed_atoms() {
    let mut g = grammar(vec![layer(Fixity::Left, b"*")]);
    g.plus_sign = true;
    let e = run(&g, "+2*-3").unwrap();
    assert_eq!(show(&e), "(2*-3)");
    assert_eq!(eval(&e), -6);
}

#[test]
fn right_layer_with_operand_level() {
    let mut power = layer(Fixity::Right, b"^");
    power.before = Some(1);
    let g = grammar(vec![layer(Fixity::Prefix, b"-"), power]);
    let e = run(&g, "-2^-3^2").unwrap();
    assert_eq!(show(&e), "((-2)^((-3)^2))");
    let g = grammar(vec![layer(Fixity::Right, b"^")]);
    assert_eq!(run(&g, "2^3^").err(), Some(ParseError { position: 4, expected: Expected::Digit(10) }));
}

#[test]
fn expressions_over_bytes() {
    let g = arith();
    let input = b"(1+2)*3".to_vec();
    let e: Expr<i64> = parse_expression(&g, &input).unwrap();
    assert_eq!(eval(&e), 9);
    let (e, end): (Expr<i64>, usize) = parse_level(&g, &input, 1, 3).unwrap();
    assert_eq!(show(&e), "(1+2)");
    assert_eq!(end, 4);
    let (e, end): (Expr<i64>, usize) = parse_level(&g, &input, 1, 0).unwrap();
    assert_eq!(show(&e), "1");
    assert_eq!(end, 2);
}

#[test]
fn atom_overflow_is_reported() {
    let g = grammar(vec![]);
    let r: Result<Expr<i8>, ParseError> = parse_expression(&g, &chars("300"));
    assert_eq!(r.err(), Some(ParseError { position: 3, expected: Expected::NotTooLarge }));
}
