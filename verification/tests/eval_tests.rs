//! Printable forms of parsed expressions.

use monkey::parser::parse_expression;

#[test]
fn eval_test_integer() {
    let expr = parse_expression("1").unwrap();
    assert_eq!(expr.to_string(), "1");

    let expr = parse_expression("123").unwrap();
    assert_eq!(expr.to_string(), "123");
}

#[test]
fn eval_test_identifier() {
    let expr = parse_expression("foobar").unwrap();
    assert_eq!(expr.to_string(), "foobar");

    let expr = parse_expression("foo_bar").unwrap();
    assert_eq!(expr.to_string(), "foo_bar");

    let expr = parse_expression("foo123").unwrap();
    assert_eq!(expr.to_string(), "foo123");

    let expr = parse_expression("foo_bar123").unwrap();
    assert_eq!(expr.to_string(), "foo_bar123");
}

#[test]
fn eval_test_boolean() {
    let expr = parse_expression("true").unwrap();
    assert_eq!(expr.to_string(), "true");

    let expr = parse_expression("false").unwrap();
    assert_eq!(expr.to_string(), "false");
}

#[test]
fn eval_test_infix_expr() {
    let expr = parse_expression("1 + 2 * 3").unwrap();
    assert_eq!(expr.to_string(), "(1 + (2 * 3))");

    let expr = parse_expression("1 * 2 + 3").unwrap();
    assert_eq!(expr.to_string(), "((1 * 2) + 3)");

    let expr = parse_expression("1 + 2 + 3").unwrap();
    assert_eq!(expr.to_string(), "((1 + 2) + 3)");

    let expr = parse_expression("1 * 2 * 3").unwrap();
    assert_eq!(expr.to_string(), "((1 * 2) * 3)");

    let expr = parse_expression("1 + 2 * 3 + 4").unwrap();
    assert_eq!(expr.to_string(), "((1 + (2 * 3)) + 4)");

    let expr = parse_expression("1 * 2 + 3 * 4").unwrap();
    assert_eq!(expr.to_string(), "((1 * 2) + (3 * 4))");

    let expr = parse_expression("1 + 2 + 3 + 4").unwrap();
    assert_eq!(expr.to_string(), "(((1 + 2) + 3) + 4)");

    let expr = parse_expression("1 * 2 * 3 * 4").unwrap();
    assert_eq!(expr.to_string(), "(((1 * 2) * 3) * 4)");
}

#[test]
fn eval_test_prefix_expr() {
    let expr = parse_expression("-1 + 2").unwrap();
    assert_eq!(expr.to_string(), "((-1) + 2)");

    let expr = parse_expression("1 + -2").unwrap();
    assert_eq!(expr.to_string(), "(1 + (-2))");

    let expr = parse_expression("-1 * 2").unwrap();
    assert_eq!(expr.to_string(), "((-1) * 2)");

    let expr = parse_expression("-(1 + 2)").unwrap();
    assert_eq!(expr.to_string(), "(-(1 + 2))");

    let expr = parse_expression("+1 + 2").unwrap();
    assert_eq!(expr.to_string(), "((+1) + 2)");

    let expr = parse_expression("!1 + 2").unwrap();
    assert_eq!(expr.to_string(), "((!1) + 2)");

    let expr = parse_expression("!(1 + 2)").unwrap();
    assert_eq!(expr.to_string(), "(!(1 + 2))");

    let expr = parse_expression("1 + !2").unwrap();
    assert_eq!(expr.to_string(), "(1 + (!2))");
}
