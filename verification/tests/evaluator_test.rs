use monkeycc::evaluator::eval;
use monkeycc::lexer::Lexer;
use monkeycc::object::Object;
use monkeycc::parser::Parser;

fn test_eval(input: &str) -> Object {
    let l = Lexer::new(input);
    let mut p = Parser::new(l);
    let program = p.parse_program().unwrap();
    eval(&program)
}

fn test_integer_object(obj: Object, expected: i64) {
    match obj {
        Object::Integer(i) => assert_eq!(i, expected),
        _ => panic!("Object is not Integer"),
    }
}

fn test_boolean_object(obj: Object, expected: bool) {
    match obj {
        Object::Boolean(b) => assert_eq!(b, expected, "{}", obj.inspect()),
        _ => panic!("Object is not boolean"),
    }
}

fn assert_error_contains(input: &str, expected_substr: &str) {
    let evaluated = test_eval(input);
    match evaluated {
        Object::Error(msg) => {
            assert!(
                msg.contains(expected_substr),
                "\ninput:\n{}\nexpected error to contain {:?}\nactual: {}\n",
                input,
                expected_substr,
                msg
            );
        }
        other => panic!("\ninput:\n{}\nexpected Object::Error, got: {:?}\n", input, other),
    }
}

#[test]
fn test_eval_integer_expression() {
    let tests: Vec<(&str, i64)> = vec![
        ("5", 5),
        ("10", 10),
        ("-5", -5),
        ("-10", -10),
        ("5 + 5 + 5 + 5 - 10", 10),
        ("2 * 2 * 2 * 2 * 2", 32),
        ("-50 + 100 + -50", 0),
        ("5 * 2 + 10", 20),
        ("5 + 2 * 10", 25),
        ("20 + 2 * -10", 0),
        ("50 / 2 * 2 + 10", 60),
        ("2 * (5 + 10)", 30),
        ("3 * 3 * 3 + 10", 37),
        ("3 * (3 * 3) + 10", 37),
        ("(5 + 10 * 2 + 15 / 3) * 2 + -10", 50),
    ];
    for (input, expect) in tests {
        let evaluated = test_eval(input);
        test_integer_object(evaluated, expect);
    }
}

#[test]
fn test_eval_boolean_expression() {
    let tests: Vec<(&str, bool)> = vec![
        ("true", true),
        ("false", false),
        ("1 < 2", true),
        ("1 > 2", false),
        ("1 < 1", false),
        ("1 > 1", false),
        ("1 == 1", true),
        ("1 != 1", false),
        ("1 == 2", false),
        ("1 != 2", true),
        ("true == true", true),
        ("false == false", true),
        ("true == false", false),
        ("true != false", true),
        ("false != true", true),
        ("(1 < 2) == true", true),
        ("(1 < 2) == false", false),
        ("(1 > 2) == true", false),
        ("(1 > 2) == false", true),
    ];
    for (input, expect) in tests {
        let evaluated = test_eval(input);
        test_boolean_object(evaluated, expect);
    }
}

#[test]
fn test_bang_operator() {
    let tests: Vec<(&str, bool)> = vec![
        ("!true", false),
        ("!false", true),
        ("!5", false),
        ("!!true", true),
        ("!!false", false),
        ("!!5", true),
    ];
    for (input, expected) in tests {
        let evaluated = test_eval(input);
        test_boolean_object(evaluated, expected);
    }
}

#[test]
fn test_if_else_expressions() {
    let tests: Vec<(&str, &str)> = vec![
        ("if (true) {10}", "10"),
        ("if (false) {10}", "null"),
        ("if (1) { 10 }", "10"),
        ("if (1 < 2) { 10 }", "10"),
        ("if (1 > 2) { 10 }", "null"),
        ("if (1 > 2) { 10 } else { 20 }", "20"),
        ("if (1 < 2) { 10 } else { 20 }", "10"),
    ];
    for (input, expected) in tests {
        let evaluated = test_eval(input);
        assert_eq!(evaluated.inspect(), expected);
    }
}

#[test]
fn evaluator_test_test_return_statements() {
    let tests: Vec<(&str, i64)> = vec![
        ("return 10;", 10),
        ("return 10; 9;", 10),
        ("return 2 * 5; 9;", 10),
        ("9; return 2 * 5; 9;", 10),
        (
            r"
                    if (10 >1) {
                        if (10 > 1) {
                            return 10
                        }
                        return 1;
                    }",
            10,
        ),
    ];
    for (input, expected) in tests {
        let evaled = test_eval(input);
        test_integer_object(evaled, expected);
    }
}

#[test]
fn test_error_handling_contains() {
    let cases: &[(&str, &str)] = &[
        ("5 + true;", "type mismatch"),
        ("5 + true; 5;", "type mismatch"),
        ("-true", "unknown operator"),
        ("true + false;", "unknown"),
        ("5; true + false; 5;", "unknown"),
        ("if (10 > 1) { true + false; }", "unknown"),
        (
            r#"
                if (10 > 1) {
                    if (10 > 1) {
                        return true + false;
                    }
                    return 1;
                }
            "#,
            "unknown",
        ),
        ("1 / 0;", "division by zero"),
    ];
    for (input, needle) in cases {
        assert_error_contains(input, needle);
    }
}
