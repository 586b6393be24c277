//! Printable forms of parsed expressions, statements and programs.

use monkey::parser::parse_expression;
use monkey::parser::parse_program;
use monkey::parser::parse_statement;

#[test]
fn parser_test_integer() {
    let expr = parse_expression("1").unwrap();
    assert_eq!(expr.to_string(), "1");

    let expr = parse_expression("123").unwrap();
    assert_eq!(expr.to_string(), "123");
}

#[test]
fn parser_test_identifier() {
    let expr = parse_expression("foobar").unwrap();
    assert_eq!(expr.to_string(), "foobar");

    let expr = parse_expression("foo_bar").unwrap();
    assert_eq!(expr.to_string(), "foo_bar");

    let expr = parse_expression("foo123").unwrap();
    assert_eq!(expr.to_string(), "foo123");

    let expr = parse_expression("foo_bar123").unwrap();
    assert_eq!(expr.to_string(), "foo_bar123");
}

#[test]
fn parser_test_boolean() {
    let expr = parse_expression("true").unwrap();
    assert_eq!(expr.to_string(), "true");

    let expr = parse_expression("false").unwrap();
    assert_eq!(expr.to_string(), "false");
}

#[test]
fn parser_test_infix_expr() {
    let expr = parse_expression("1+ 2 * 3").unwrap();
    assert_eq!(expr.to_string(), "(1 + (2 * 3))");

    let expr = parse_expression("1 * 2+ 3").unwrap();
    assert_eq!(expr.to_string(), "((1 * 2) + 3)");

    let expr = parse_expression("1 + 2+ 3").unwrap();
    assert_eq!(expr.to_string(), "((1 + 2) + 3)");

    let expr = parse_expression("1 *2 * 3").unwrap();
    assert_eq!(expr.to_string(), "((1 * 2) * 3)");

    let expr = parse_expression("1 + 2 * 3 + 4").unwrap();
    assert_eq!(expr.to_string(), "((1 + (2 * 3)) + 4)");

    let expr = parse_expression("1 * 2 + 3 * 4").unwrap();
    assert_eq!(expr.to_string(), "((1 * 2) + (3 * 4))");

    let expr = parse_expression("1 + 2 + 3 + 4").unwrap();
    assert_eq!(expr.to_string(), "(((1 + 2) + 3) + 4)");

    let expr = parse_expression("1 * 2 * 3 * 4").unwrap();
    assert_eq!(expr.to_string(), "(((1 * 2) * 3) * 4)");

    let expr = parse_expression("1 < 2").unwrap();
    assert_eq!(expr.to_string(), "(1 < 2)");

    let expr = parse_expression("1 > 2").unwrap();
    assert_eq!(expr.to_string(), "(1 > 2)");

    let expr = parse_expression("1 == 2").unwrap();
    assert_eq!(expr.to_string(), "(1 == 2)");

    let expr = parse_expression("1 != 2").unwrap();
    assert_eq!(expr.to_string(), "(1 != 2)");
}

#[test]
fn parser_test_prefix_expr() {
    let expr = parse_expression("-1 + 2").unwrap();
    assert_eq!(expr.to_string(), "((-1) + 2)");

    let expr = parse_expression("1 + -2").unwrap();
    assert_eq!(expr.to_string(), "(1 + (-2))");

    let expr = parse_expression("-1 * 2").unwrap();
    assert_eq!(expr.to_string(), "((-1) * 2)");

    let expr = parse_expression("-(1 + 2)").unwrap();
    assert_eq!(expr.to_string(), "(-(1 + 2))");

    let expr = parse_expression("+1 + 2").unwrap();
    assert_eq!(expr.to_string(), "((+1) + 2)");

    let expr = parse_expression("!1 + 2").unwrap();
    assert_eq!(expr.to_string(), "((!1) + 2)");

    let expr = parse_expression("!(1 + 2)").unwrap();
    assert_eq!(expr.to_string(), "(!(1 + 2))");

    let expr = parse_expression("1 + !2").unwrap();
    assert_eq!(expr.to_string(), "(1 + (!2))");
}

#[test]
fn test_if_expr() {
    let expr = parse_expression("if (true) { 1; }").unwrap();
    assert_eq!(expr.to_string(), "if (true) {\n  1\n}");

    let expr = parse_expression("if (true) { 1; } else { 2; }").unwrap();
    assert_eq!(expr.to_string(), "if (true) {\n  1\n} else {\n  2\n}");
}

#[test]
fn test_func_literal() {
    let expr = parse_expression("fn() { 1; }").unwrap();
    assert_eq!(expr.to_string(), "fn() {\n  1\n}");

    let expr = parse_expression("fn(a) { 1; }").unwrap();
    assert_eq!(expr.to_string(), "fn(a) {\n  1\n}");

    let expr = parse_expression("fn(a, b) { 1; }").unwrap();
    assert_eq!(expr.to_string(), "fn(a, b) {\n  1\n}");

    let expr = parse_expression("fn(a, b, c) { 1; }").unwrap();
    assert_eq!(expr.to_string(), "fn(a, b, c) {\n  1\n}");

    let expr = parse_expression("fn(a, b, c) { 1; 2; }").unwrap();
    assert_eq!(expr.to_string(), "fn(a, b, c) {\n  1\n  2\n}");

    let expr = parse_expression("fn(a, b, c) { 1 * 2 + 3; 4; }").unwrap();
    assert_eq!(expr.to_string(), "fn(a, b, c) {\n  ((1 * 2) + 3)\n  4\n}");
}

#[test]
fn test_operator_precedence() {
    let expr = parse_expression("-a * b").unwrap();
    assert_eq!(expr.to_string(), "((-a) * b)");

    let expr = parse_expression("!(-a)").unwrap();
    assert_eq!(expr.to_string(), "(!(-a))");

    let expr = parse_expression("!-a").unwrap();
    assert_eq!(expr.to_string(), "(!(-a))");

    let expr = parse_expression("!!-a").unwrap();
    assert_eq!(expr.to_string(), "(!(!(-a)))");

    let expr = parse_expression("!!true").unwrap();
    assert_eq!(expr.to_string(), "(!(!true))");

    let expr = parse_expression("a + b * c").unwrap();
    assert_eq!(expr.to_string(), "(a + (b * c))");

    let expr = parse_expression("(a + b) * c").unwrap();
    assert_eq!(expr.to_string(), "((a + b) * c)");

    let expr = parse_expression("a * b + c").unwrap();
    assert_eq!(expr.to_string(), "((a * b) + c)");

    let expr = parse_expression("a + b + c").unwrap();
    assert_eq!(expr.to_string(), "((a + b) + c)");

    let expr = parse_expression("a * b * c").unwrap();
    assert_eq!(expr.to_string(), "((a * b) * c)");

    let expr = parse_expression("a + b * c + d / e - f").unwrap();
    assert_eq!(expr.to_string(), "(((a + (b * c)) + (d / e)) - f)");

    let expr = parse_expression("5 > 4 == 3 < 4").unwrap();
    assert_eq!(expr.to_string(), "((5 > 4) == (3 < 4))");

    let expr = parse_expression("5 < 4 != 3 > 4").unwrap();
    assert_eq!(expr.to_string(), "((5 < 4) != (3 > 4))");

    let expr = parse_expression("a + add(b * c) + d").unwrap();
    assert_eq!(expr.to_string(), "((a + add((b * c))) + d)");

    let expr = parse_expression("add(a + b + c * d) + f").unwrap();
    assert_eq!(expr.to_string(), "(add(((a + b) + (c * d))) + f)");

    let expr = parse_expression("add(a, b, 1, 2 * 3, 4 + 5, add(6, 7 * 8))").unwrap();
    assert_eq!(expr.to_string(), "add(a, b, 1, (2 * 3), (4 + 5), add(6, (7 * 8)))");

    let expr = parse_expression("add(a + b + c * d / f + g)").unwrap();
    assert_eq!(expr.to_string(), "add((((a + b) + ((c * d) / f)) + g))");
}

#[test]
fn test_call_expr() {
    let expr = parse_expression("add(1, 2 * 3, 4 + 5)").unwrap();
    assert_eq!(expr.to_string(), "add(1, (2 * 3), (4 + 5))");

    let expr = parse_expression("add(1, 2)").unwrap();
    assert_eq!(expr.to_string(), "add(1, 2)");

    let expr = parse_expression("add(1)").unwrap();
    assert_eq!(expr.to_string(), "add(1)");

    let expr = parse_expression("add()").unwrap();
    assert_eq!(expr.to_string(), "add()");
}

#[test]
fn test_let_stmt() {
    let stmt = parse_statement("let a = 1;").unwrap();
    assert_eq!(stmt.to_string(), "let a = 1");

    let stmt = parse_statement("let a = 1 + 2;").unwrap();
    assert_eq!(stmt.to_string(), "let a = (1 + 2)");

    let stmt = parse_statement("let a = 1 + 2 * 3;").unwrap();
    assert_eq!(stmt.to_string(), "let a = (1 + (2 * 3))");

    let stmt = parse_statement("let a = 1 * 2 + 3;").unwrap();
    assert_eq!(stmt.to_string(), "let a = ((1 * 2) + 3)");

    let stmt = parse_statement("let a = 1 + 2 + 3;").unwrap();
    assert_eq!(stmt.to_string(), "let a = ((1 + 2) + 3)");

    let stmt = parse_statement("let a = 1 * 2 * 3;").unwrap();
    assert_eq!(stmt.to_string(), "let a = ((1 * 2) * 3)");

    let stmt = parse_statement("let a = 1 + 2 * 3 + 4;").unwrap();
    assert_eq!(stmt.to_string(), "let a = ((1 + (2 * 3)) + 4)");

    let stmt = parse_statement("let a = 1 * 2 + 3 * 4;").unwrap();
    assert_eq!(stmt.to_string(), "let a = ((1 * 2) + (3 * 4))");

    let stmt = parse_statement("let a = 1 + 2 + 3 + 4;").unwrap();
    assert_eq!(stmt.to_string(), "let a = (((1 + 2) + 3) + 4)");

    let stmt = parse_statement("let a = 1 * 2 * 3 * 4;").unwrap();
    assert_eq!(stmt.to_string(), "let a = (((1 * 2) * 3) * 4)");
}

#[test]
fn test_return_stmt() {
    let stmt = parse_statement("return 1;").unwrap();
    assert_eq!(stmt.to_string(), "return 1");

    let stmt = parse_statement("return 1 + 2;").unwrap();
    assert_eq!(stmt.to_string(), "return (1 + 2)");

    let stmt = parse_statement("return 1 + 2 * 3;").unwrap();
    assert_eq!(stmt.to_string(), "return (1 + (2 * 3))");

    let stmt = parse_statement("return 1 * 2 + 3;").unwrap();
    assert_eq!(stmt.to_string(), "return ((1 * 2) + 3)");

    let stmt = parse_statement("return 1 + 2 + 3;").unwrap();
    assert_eq!(stmt.to_string(), "return ((1 + 2) + 3)");

    let stmt = parse_statement("return 1 * 2 * 3;").unwrap();
    assert_eq!(stmt.to_string(), "return ((1 * 2) * 3)");

    let stmt = parse_statement("return 1 + 2 * 3 + 4;").unwrap();
    assert_eq!(stmt.to_string(), "return ((1 + (2 * 3)) + 4)");

    let stmt = parse_statement("return 1 * 2 + 3 * 4;").unwrap();
    assert_eq!(stmt.to_string(), "return ((1 * 2) + (3 * 4))");

    let stmt = parse_statement("return 1 + 2 + 3 + 4;").unwrap();
    assert_eq!(stmt.to_string(), "return (((1 + 2) + 3) + 4)");

    let stmt = parse_statement("return 1 * 2 * 3 * 4;").unwrap();
    assert_eq!(stmt.to_string(), "return (((1 * 2) * 3) * 4)");
}

#[test]
fn test_expr_stmt() {
    let stmt = parse_statement("1;").unwrap();
    assert_eq!(stmt.to_string(), "1");

    let stmt = parse_statement("1 + 2;").unwrap();
    assert_eq!(stmt.to_string(), "(1 + 2)");

    let stmt = parse_statement("1 + 2 * 3;").unwrap();
    assert_eq!(stmt.to_string(), "(1 + (2 * 3))");

    let stmt = parse_statement("1 * 2 + 3;").unwrap();
    assert_eq!(stmt.to_string(), "((1 * 2) + 3)");

    let stmt = parse_statement("1 + 2 - 3;").unwrap();
    assert_eq!(stmt.to_string(), "((1 + 2) - 3)");

    let stmt = parse_statement("1 * 2 - 3 / 4;").unwrap();
    assert_eq!(stmt.to_string(), "((1 * 2) - (3 / 4))");
}

#[test]
fn test_block_stmt() {
    let stmt = parse_statement("{ 1; }").unwrap();
    assert_eq!(stmt.to_string(), "{\n  1\n}");

    let stmt = parse_statement("{ 1; 2; }").unwrap();
    assert_eq!(stmt.to_string(), "{\n  1\n  2\n}");

    let stmt = parse_statement("{ 1+2; 2*3; }").unwrap();
    assert_eq!(stmt.to_string(), "{\n  (1 + 2)\n  (2 * 3)\n}");
}

#[test]
fn test_program() {
    let program = parse_program("1;").unwrap();
    assert_eq!(program.to_string(), "[1]");

    let program = parse_program("1; 2;").unwrap();
    assert_eq!(program.to_string(), "[1, 2]");

    let program = parse_program("let a = 1;").unwrap();
    assert_eq!(program.to_string(), "[let a = 1]");

    let program = parse_program("let a = 1; 2;").unwrap();
    assert_eq!(program.to_string(), "[let a = 1, 2]");

    let program = parse_program("let a = 1; let b = 2;").unwrap();
    assert_eq!(program.to_string(), "[let a = 1, let b = 2]");

    let program = parse_program("return 1;").unwrap();
    assert_eq!(program.to_string(), "[return 1]");

    let program = parse_program("return 1; return 2;").unwrap();
    assert_eq!(program.to_string(), "[return 1, return 2]");

    let program = parse_program("return 1; let a = 2;").unwrap();
    assert_eq!(program.to_string(), "[return 1, let a = 2]");

    let program = parse_program("1; return 2;").unwrap();
    assert_eq!(program.to_string(), "[1, return 2]");

    let program = parse_program("1; return 2; 3;").unwrap();
    assert_eq!(program.to_string(), "[1, return 2, 3]");

    let program = parse_program("1; return 2; let a = 3;").unwrap();
    assert_eq!(program.to_string(), "[1, return 2, let a = 3]");

    let program = parse_program("1; return 2; let a = 3; 4;").unwrap();
    assert_eq!(program.to_string(), "[1, return 2, let a = 3, 4]");
}
