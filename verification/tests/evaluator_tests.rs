//! End-to-end evaluation of programs.

use monkey::environment::Environment;
use monkey::evaluator::eval_hash_index_expression;
use monkey::evaluator::eval_program;
use monkey::object::Object;
use monkey::parser::parse_program;

fn run(input: &str) -> Object {
    let program = parse_program(input).unwrap();
    let mut env = Environment::new();
    eval_program(&program, &mut env).unwrap()
}

fn assert_is_integer(object: &Object, expected_value: i64) {
    match object {
        Object::Integer(n) => assert_eq!(*n, expected_value),
        _ => panic!("Expected Integer object"),
    }
}

#[test]
fn test_eval_integer_expression() {
    let tests = vec![
        ("5;", 5),
        ("10;", 10),
        ("5 + 5 + 5 + 5 - 10;", 10),
        ("2 * 2 * 2 * 2 * 2;", 32),
        ("5 * 2 + 10;", 20),
        ("5 + 2 * 10;", 25),
        ("5 * (2 + 10);", 60),
        ("-5;", -5),
        ("-10;", -10),
        ("-50 + 100 + -50;", 0),
        ("(5 + 10 * 2 + 15 / 3) * 2 + -10;", 50),
    ];

    for (input, expected) in tests {
        let results = run(input);
        assert_is_integer(&results, expected);
    }
}

#[test]
fn test_eval_boolean_expression() {
    let tests = vec![
        ("true;", true),
        ("false;", false),
        ("1 < 2;", true),
        ("1 > 2;", false),
        ("1 < 1;", false),
        ("1 > 1;", false),
        ("1 == 1;", true),
        ("1 != 1;", false),
        ("1 == 2;", false),
        ("1 != 2;", true),
        ("true == true;", true),
        ("false == false;", true),
        ("true == false;", false),
        ("true != false;", true),
        ("false != true;", true),
        ("(1 < 2) == true;", true),
        ("(1 < 2) == false;", false),
        ("(1 > 2) == true;", false),
        ("(1 > 2) == false;", true),
        ("5 + 10 > 4 + 5;", true),
        ("5 + 10 < 4 + 5;", false),
    ];

    for (input, expected) in tests {
        let results = run(input);
        assert_eq!(results.inspect(), expected.to_string());
    }
}

#[test]
fn test_eval_bang_operator() {
    let tests = vec![
        ("!true;", false),
        ("!false;", true),
        ("!5;", false),
        ("!!true;", true),
        ("!!false;", false),
        ("!!5;", true),
    ];

    for (input, expected) in tests {
        let results = run(input);
        assert_eq!(results.inspect(), expected.to_string());
    }
}

#[test]
fn test_eval_if_expression() {
    let tests = vec![
        ("if(true) {1;};", Some(1)),
        ("if (true) { 1; } else { 2; };", Some(1)),
        ("if (false) { 10; };", None),
        ("if (1) { 10; };", Some(10)),
        ("if (1 < 2) { 10; };", Some(10)),
        ("if (1 > 2) { 10; };", None),
        ("if (1 > 2) { 10; } else { 20; };", Some(20)),
        ("if (1 < 2) { 10; } else { 20; };", Some(10)),
    ];

    for (input, expected) in tests {
        let result = run(input);
        match expected {
            Some(value) => assert_is_integer(&result, value),
            None => assert_eq!(result.inspect(), "null"),
        }
    }
}

#[test]
fn test_eval_return_statement() {
    let tests = vec![
        ("return 10;", 10),
        ("return 10; 9;", 10),
        ("return 2 * 5; 9;", 10),
        ("9; return 2 * 5; 9;", 10),
        (
            "if (10 > 1) {
                if (10 > 1) {
                    return 10;
                };
                return 1;
            };",
            10,
        ),
    ];

    for (input, expected) in tests {
        let results = run(input);
        assert_is_integer(&results, expected);
    }
}

#[test]
fn test_error_handling() {
    let tests = vec![
        ("5 + true;", "type mismatch: INTEGER + BOOLEAN"),
        ("5 + true; 5;", "type mismatch: INTEGER + BOOLEAN"),
        ("-true;", "unknown operator: -BOOLEAN"),
        ("true + false;", "unknown operator: BOOLEAN + BOOLEAN"),
        ("5; true + false; 5;", "unknown operator: BOOLEAN + BOOLEAN"),
        ("if (10 > 1) { true + false; };", "unknown operator: BOOLEAN + BOOLEAN"),
        (
            "
            if (10 > 1) {
                if (10 > 1) {
                    return true + false;
                };
                return 1;
            };
            ",
            "unknown operator: BOOLEAN + BOOLEAN",
        ),
        ("foobar;", "identifier not found: foobar"),
        ("\"Hello\" - \"World\";", "unknown operator: STRING - STRING"),
    ];

    for (input, expected) in tests {
        let result = run(input);
        match result {
            Object::Error(_) => assert_eq!(result.inspect(), expected),
            _ => panic!("Expected error object"),
        }
    }
}

#[test]
fn test_let_statement() {
    let tests = vec![
        ("let a = 5; a;", 5),
        ("let a = 5 * 5; a;", 25),
        ("let a = 5; let b = a; b;", 5),
        ("let a = 5; let b = a; let c = a + b + 5; c;", 15),
    ];

    for (input, expected) in tests {
        let results = run(input);
        assert_is_integer(&results, expected);
    }
}

#[test]
fn test_function_object() {
    let results = run("fn(x) { x + 2; };");
    match &results {
        Object::Function { parameters, .. } => {
            assert_eq!(results.inspect(), "fn(x) {\n  (x + 2)\n}");
            assert_eq!(results.object_type().as_str(), "FUNCTION");
            assert_eq!(parameters.len(), 1);
        },
        _ => panic!("Expected Function object"),
    }
}

#[test]
fn test_function_application() {
    let tests = vec![
        ("let identity = fn(x) { x; }; identity(5);", 5),
        ("let identity = fn(x) { return x; }; identity(5);", 5),
        ("let double = fn(x) { x * 2; }; double(5);", 10),
        ("let add = fn(x, y) { x + y; }; add(5, 5);", 10),
        ("let add = fn(x, y) { x + y; }; add(5 + 5, add(5, 5));", 20),
        ("fn(x) { x; }(5);", 5),
    ];

    for (input, expected) in tests {
        let results = run(input);
        assert_is_integer(&results, expected);
    }
}

#[test]
fn test_closures() {
    let input = "
    let newAdder = fn(x) {
        fn(y) { x + y; };
    };
    let addTwo = newAdder(2);
    addTwo(3);
    ";
    let results = run(input);
    assert_is_integer(&results, 5);
}

#[test]
fn test_string_literal() {
    let results = run("\"Hello, World!\";");
    match &results {
        Object::StringObj(_) => assert_eq!(results.inspect(), "Hello, World!"),
        _ => panic!("Expected String object"),
    }
}

#[test]
fn test_string_concatenation() {
    let results = run("\"Hello\" + \" \" + \"World!\";");
    match &results {
        Object::StringObj(_) => assert_eq!(results.inspect(), "Hello World!"),
        _ => panic!("Expected String object"),
    }
}

#[test]
fn test_builtin_functions_with_integer() {
    let tests = vec![
        ("len(\"\");", 0),
        ("len(\"four\");", 4),
        ("len(\"hello world\");", 11),
        ("len([1,2,3]);", 3),
        ("len([]);", 0),
        ("len([1, 2 * 2, 3 + 3]);", 3),
        ("first([1, 2, 3]);", 1),
        ("last([1, 2, 3]);", 3),
    ];

    for (input, expected) in tests {
        let result = run(input);
        match result {
            Object::Integer(n) => assert_eq!(n, expected),
            _ => panic!("Expected Integer object"),
        }
    }
}

#[test]
fn test_builtin_functions_with_slices() {
    let tests: Vec<(&str, &[i64])> = vec![
        ("rest([1, 2, 3]);", &[2, 3]),
        ("push([], 1);", &[1]),
        ("push([1], 2);", &[1, 2]),
        ("push([1, 2], 3);", &[1, 2, 3]),
    ];

    for (input, expected) in tests {
        let result = run(input);
        match &result {
            Object::Array(elements) => {
                assert_eq!(elements.len(), expected.len());
                for (i, element) in elements.iter().enumerate() {
                    match element {
                        Object::Integer(n) => assert_eq!(*n, expected[i]),
                        _ => panic!("Expected Integer object"),
                    }
                }
            },
            _ => panic!("Expected Array object"),
        }
    }
}

#[test]
fn test_builtin_functions_with_null() {
    let tests = vec![("first([]);", "null"), ("last([]);", "null")];

    for (input, expected) in tests {
        let result = run(input);
        match &result {
            Object::Null => assert_eq!(result.inspect(), expected),
            _ => panic!("Expected Null object"),
        }
    }
}

#[test]
fn test_builtin_functions_with_errors() {
    let tests = vec![
        ("len(1);", "argument to `len` not supported, got INTEGER"),
        ("len(\"one\", \"two\");", "wrong number of arguments. got=2, want=1"),
        ("first(1);", "argument to `first` must be ARRAY, got INTEGER"),
        ("last(1);", "argument to `last` must be ARRAY, got INTEGER"),
        ("rest(1);", "argument to `rest` must be ARRAY, got INTEGER"),
        ("push(1, 1);", "argument to `push` must be ARRAY, got INTEGER"),
    ];

    for (input, expected) in tests {
        let result = run(input);
        match result {
            Object::Error(_) => assert_eq!(result.inspect(), expected),
            _ => panic!("Expected error object"),
        }
    }
}

#[test]
fn test_array_literals() {
    let results = run("[1, 2 * 2, 3 + 3];");
    match &results {
        Object::Array(elements) => {
            assert_eq!(elements.len(), 3);
            assert_is_integer(&elements[0], 1);
            assert_is_integer(&elements[1], 4);
            assert_is_integer(&elements[2], 6);
        },
        _ => panic!("Expected Array object"),
    }
}

#[test]
fn test_array_index_expressions() {
    let tests = vec![
        ("[1, 2, 3][0];", 1),
        ("[1, 2, 3][1];", 2),
        ("[1, 2, 3][2];", 3),
        ("let i = 0; [1][i];", 1),
        ("[1, 2, 3][1 + 1];", 3),
        ("let myArray = [1, 2, 3]; myArray[2];", 3),
        ("let myArray = [1, 2, 3]; myArray[0] + myArray[1] + myArray[2];", 6),
        ("let myArray = [1, 2, 3]; let i = myArray[0]; myArray[i];", 2),
    ];

    for (input, expected) in tests {
        let results = run(input);
        assert_is_integer(&results, expected);
    }
}

#[test]
fn test_array_index_null_object() {
    let results = run("[1, 2, 3][3];");
    match &results {
        Object::Null => assert_eq!(results.inspect(), "null"),
        _ => panic!("Expected Null object"),
    }
}

#[test]
fn test_eval_hash_literal_with_string() {
    let input = "
    let two = \"two\";
    {
        \"one\": 10 - 9,
        two: 1 + 1,
        \"thr\" + \"ee\": 6 / 2,
    };
    ";
    let results = run(input);
    match &results {
        Object::Hash(pairs) => {
            let expected = vec![("one", 1), ("two", 2), ("three", 3)];
            for (key, value) in expected {
                let key_object = Object::StringObj(key.to_string());
                assert!(key_object.hash_key().is_some());
                let found = eval_hash_index_expression(pairs, &key_object);
                assert_is_integer(&found, value);
            }
        },
        _ => panic!("Expected Hash object"),
    }
}

#[test]
fn test_eval_hash_literal_with_integer() {
    let results = run("{1: 1, 2: 2, 3: 3};");
    match &results {
        Object::Hash(pairs) => {
            let expected = vec![(1, 1), (2, 2), (3, 3)];
            for (key, value) in expected {
                let key_object = Object::Integer(key);
                assert!(key_object.hash_key().is_some());
                let found = eval_hash_index_expression(pairs, &key_object);
                assert_is_integer(&found, value);
            }
        },
        _ => panic!("Expected Hash object"),
    }
}

#[test]
fn test_eval_hash_literal_with_boolean() {
    let results = run("{true: 1, false: 0};");
    match &results {
        Object::Hash(pairs) => {
            let expected = vec![(true, 1), (false, 0)];
            for (key, value) in expected {
                let key_object = Object::Boolean(key);
                assert!(key_object.hash_key().is_some());
                let found = eval_hash_index_expression(pairs, &key_object);
                assert_is_integer(&found, value);
            }
        },
        _ => panic!("Expected Hash object"),
    }
}

#[test]
fn test_hash_index_expressions() {
    let tests = vec![
        ("{\"foo\": 5}[\"foo\"];", 5),
        ("let key = \"foo\"; {\"foo\": 5}[key];", 5),
        ("{5: 5}[5];", 5),
        ("{true: 5}[true];", 5),
        ("{false: 5}[false];", 5),
    ];

    for (input, expected) in tests {
        let results = run(input);
        assert_is_integer(&results, expected);
    }
}

#[test]
fn test_hash_index_expressions_with_null() {
    let tests = vec![("{\"foo\": 5}[\"bar\"];", "null"), ("{}[\"foo\"];", "null")];

    for (input, expected) in tests {
        let result = run(input);
        match &result {
            Object::Null => assert_eq!(result.inspect(), expected),
            _ => panic!("Expected Null object"),
        }
    }
}
