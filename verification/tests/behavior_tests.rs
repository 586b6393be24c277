//! Behavior pinned by the language rules: truthiness, closures, error
//! short-circuiting, built-in purity, out-of-range lookups, arity
//! handling, and the documented arithmetic choices.

use monkey::builtin::get_builtin;
use monkey::environment::Environment;
use monkey::evaluator::eval_program;
use monkey::object::Object;
use monkey::parser::parse_program;

fn run(input: &str) -> Object {
    let program = parse_program(input).unwrap();
    let mut env = Environment::new();
    eval_program(&program, &mut env).unwrap()
}

fn assert_is_integer(object: &Object, expected_value: i64) {
    match object {
        Object::Integer(n) => assert_eq!(*n, expected_value),
        _ => panic!("Expected Integer object"),
    }
}

#[test]
fn test_zero_is_truthy() {
    let result = run("if (0) { 1; } else { 2; };");
    assert_is_integer(&result, 1);
}

#[test]
fn test_null_condition_takes_alternative() {
    let result = run("if (first([])) { 1; } else { 2; };");
    assert_is_integer(&result, 2);
}

#[test]
fn test_false_condition_without_alternative_is_null() {
    let result = run("if (false) { 1; };");
    assert_eq!(result.inspect(), "null");
}

#[test]
fn test_nested_closure_capture() {
    let result = run("let f = fn(x){ fn(y){ x+y; }; }; f(2)(3);");
    assert_is_integer(&result, 5);
}

#[test]
fn test_recursion_through_let_binding() {
    let input = "
    let map = fn(arr, f) {
        let iter = fn(a, acc) {
            if (len(a) == 0) { acc; } else { iter(rest(a), push(acc, f(first(a)))); };
        };
        iter(arr, []);
    };
    map([1, 2, 3], fn(x) { x * 2; });
    ";
    let result = run(input);
    assert_eq!(result.inspect(), "[2, 4, 6]");
}

#[test]
fn test_error_stops_later_statements() {
    // The failing statement ends the program: the later binding is never
    // made, so evaluating it afresh cannot have happened.
    let result = run("let a = 1; (true + false); let b = 2; b;");
    assert_eq!(result.inspect(), "unknown operator: BOOLEAN + BOOLEAN");
}

#[test]
fn test_error_in_argument_stops_call() {
    let result = run("len(true + false);");
    assert_eq!(result.inspect(), "unknown operator: BOOLEAN + BOOLEAN");
}

#[test]
fn test_push_does_not_mutate() {
    let result = run("let a = [1]; push(a, 2); len(a);");
    assert_is_integer(&result, 1);
}

#[test]
fn test_array_index_far_out_of_range_is_null() {
    let result = run("[1, 2, 3][99];");
    assert_eq!(result.inspect(), "null");
}

#[test]
fn test_array_negative_index_is_null() {
    let result = run("[1, 2, 3][0 - 1];");
    assert_eq!(result.inspect(), "null");
}

#[test]
fn test_empty_array_index_is_null() {
    let result = run("[][0];");
    assert_eq!(result.inspect(), "null");
}

#[test]
fn test_hash_missing_integer_key_is_null() {
    let result = run("{1: 1}[2];");
    assert_eq!(result.inspect(), "null");
}

#[test]
fn test_hash_string_key_built_by_concatenation() {
    let result = run(
        "let two = \"two\"; {\"one\": 10-9, two: 1+1, \"thr\"+\"ee\": 6/2}[\"three\"];",
    );
    assert_is_integer(&result, 3);
}

#[test]
fn test_hash_later_key_replaces_earlier() {
    let result = run("{1: 10, 1: 20}[1];");
    assert_is_integer(&result, 20);
}

#[test]
fn test_unusable_hash_key_in_literal() {
    let result = run("{[1]: 2};");
    assert_eq!(result.inspect(), "unusable as hash key: [1]");
}

#[test]
fn test_unusable_hash_key_in_index() {
    let result = run("{1: 2}[[1]];");
    assert_eq!(result.inspect(), "unusable as hash key: [1]");
}

#[test]
fn test_index_on_unsupported_target() {
    let result = run("5[0];");
    assert_eq!(result.inspect(), "index operator not supported: INTEGER[INTEGER]");
}

#[test]
fn test_calling_a_non_function() {
    let result = run("5(1);");
    assert_eq!(result.inspect(), "not a function: INTEGER");
}

#[test]
fn test_push_wrong_arity() {
    let result = run("push([1]);");
    assert_eq!(result.inspect(), "wrong number of arguments. got=1, want=2");
}

#[test]
fn test_extra_arguments_are_ignored() {
    let result = run("let f = fn(x) { x; }; f(1, 2, 3);");
    assert_is_integer(&result, 1);
}

#[test]
fn test_missing_argument_leaves_parameter_unbound() {
    let result = run("let f = fn(x, y) { y; }; f(1);");
    assert_eq!(result.inspect(), "identifier not found: y");
}

#[test]
fn test_structural_equality_on_arrays() {
    assert_eq!(run("[1, 2] == [1, 2];").inspect(), "true");
    assert_eq!(run("[1] == [2];").inspect(), "false");
    assert_eq!(run("[1] != [2];").inspect(), "true");
}

#[test]
fn test_structural_equality_on_hashes_and_null() {
    assert_eq!(run("{1: 2} == {1: 2};").inspect(), "true");
    assert_eq!(run("first([]) == last([]);").inspect(), "true");
}

#[test]
fn test_string_equality() {
    assert_eq!(run("\"a\" == \"a\";").inspect(), "true");
    assert_eq!(run("\"a\" != \"b\";").inspect(), "true");
}

#[test]
fn test_division_by_zero_is_an_error() {
    let result = run("5 / 0;");
    assert_eq!(result.inspect(), "division by zero");
}

#[test]
fn test_division_truncates_toward_zero() {
    assert_is_integer(&run("7 / 2;"), 3);
    assert_is_integer(&run("(0 - 7) / 2;"), -3);
}

#[test]
fn test_addition_wraps_on_overflow() {
    let result = run("9223372036854775807 + 1;");
    assert_eq!(result.inspect(), "-9223372036854775808");
}

#[test]
fn test_trailing_commas() {
    assert_eq!(run("[1, 2,];").inspect(), "[1, 2]");
    assert_is_integer(&run("let f = fn(x) { x; }; f(1,);"), 1);
    assert_is_integer(&run("fn(a,) { a; }(3);"), 3);
    assert_is_integer(&run("{1: 2,}[1];"), 2);
}

#[test]
fn test_unary_plus_on_integer() {
    assert_is_integer(&run("+5;"), 5);
}

#[test]
fn test_empty_program_is_null() {
    let result = run("");
    assert_eq!(result.inspect(), "null");
}

#[test]
fn test_integer_literal_overflow_is_a_parse_error() {
    assert!(parse_program("99999999999999999999;").is_err());
}

#[test]
fn test_unterminated_string_is_a_parse_error() {
    assert!(parse_program("\"abc").is_err());
}

#[test]
fn test_missing_semicolon_is_a_parse_error() {
    assert!(parse_program("let a = 1").is_err());
}

#[test]
fn test_bindings_persist_across_programs() {
    let mut env = Environment::new();
    let first_program = parse_program("let x = 5;").unwrap();
    eval_program(&first_program, &mut env).unwrap();
    let second_program = parse_program("x + 1;").unwrap();
    let result = eval_program(&second_program, &mut env).unwrap();
    assert_is_integer(&result, 6);
}

#[test]
fn test_builtins_resolve_before_bindings() {
    assert!(get_builtin("len").is_some());
    assert!(get_builtin("size").is_none());
    let result = run("let len = 5; len;");
    assert_eq!(result.inspect(), "builtin function");
}

#[test]
fn test_environment_lookup_through_scopes() {
    let mut env = Environment::new();
    assert_eq!(env.scope_count(), 1);
    env.set(0, "a".to_string(), Object::Integer(7));
    let inner = env.new_enclosed(0);
    assert_eq!(env.scope_count(), 2);
    assert!(matches!(env.get(inner, "a"), Some(Object::Integer(7))));
    env.set(inner, "a".to_string(), Object::Integer(9));
    assert!(matches!(env.get(inner, "a"), Some(Object::Integer(9))));
    assert!(matches!(env.get(0, "a"), Some(Object::Integer(7))));
    assert!(env.get(inner, "b").is_none());
}

#[test]
fn test_string_inspect_and_literal_form() {
    let result = run("\"Hello World!\";");
    assert_eq!(result.inspect(), "Hello World!");
    let expr = monkey::parser::parse_expression("\"hi\"").unwrap();
    assert_eq!(expr.to_string(), "\"hi\"");
}

#[test]
fn test_inspect_of_aggregates() {
    assert_eq!(run("[1, \"a\", true];").inspect(), "[1, a, true]");
    assert_eq!(run("{1: 2, \"x\": 3};").inspect(), "{1: 2, x: 3}");
    assert_eq!(run("len;").inspect(), "builtin function");
}

#[test]
fn test_bang_on_null_is_true() {
    assert_eq!(run("!first([]);").inspect(), "true");
}

#[test]
fn test_len_counts_bytes() {
    let result = run("len(\"h\u{00e9}\");");
    assert_is_integer(&result, 3);
}

#[test]
fn test_type_tags() {
    assert_eq!(run("5;").object_type().as_str(), "INTEGER");
    assert_eq!(run("true;").object_type().as_str(), "BOOLEAN");
    assert_eq!(run("\"s\";").object_type().as_str(), "STRING");
    assert_eq!(run("[1];").object_type().as_str(), "ARRAY");
    assert_eq!(run("{};").object_type().as_str(), "HASH");
    assert_eq!(run("first([]);").object_type().as_str(), "NULL");
}

#[test]
fn test_deep_call_reports_depth_error() {
    let program = parse_program("let f = fn(x) { f(x); }; f(1);").unwrap();
    let mut env = Environment::new();
    assert!(eval_program(&program, &mut env).is_err());
}
