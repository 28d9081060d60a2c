use std::iter::zip;

use monkeycc::ast::{Expr, Statement};
use monkeycc::lexer::Lexer;
use monkeycc::parser::Parser;
use monkeycc::token::TokenType;

fn check_parser_errors(p: &Parser) {
    let errors = p.errors();
    if errors.len() == 0 {
        return;
    }
    println!("Parser has {} errors", errors.len());
    for msg in errors {
        println!("- parser error: {}", msg)
    }
    panic!("Fail the check parser errors")
}

#[test]
fn test_let_statements() {
    let input = r#"
            let x = 5;
            let y = 10;
            let footbar = 838383;
        "#;
    let tests = vec![("x", "5"), ("y", "10"), ("footbar", "838383")];

    let l = Lexer::new(input);
    let mut p = Parser::new(l);
    let program = p.parse_program();
    check_parser_errors(&p);

    match program {
        Some(p) => {
            assert_eq!(
                3,
                p.statements.len(),
                "let statements is expected {}, got {}",
                3,
                p.statements.len()
            );
            for (t, i_v) in p.statements.iter().zip(tests.iter()) {
                match &t {
                    &Statement::Let { name, value } => {
                        assert_eq!(name.string(), i_v.0);
                        assert_eq!(value.string(), i_v.1);
                    }
                    _ => {
                        panic!("not a Let statement");
                    }
                }
            }
        }
        None => {
            panic!("parse_program() returned None");
        }
    }
}

#[test]
fn parser_test_test_return_statements() {
    let input = r#"
           return 5;
           return 10;
           return 993322;
           return 1 + 2;
        "#;
    let values = vec!["5", "10", "993322", "(1 + 2)"];

    let l = Lexer::new(input);
    let mut p = Parser::new(l);
    let program = p.parse_program();
    check_parser_errors(&p);

    match program {
        Some(p) => {
            assert_eq!(p.statements.len(), 4);
            for (stmt, val) in zip(p.statements, values) {
                match stmt {
                    Statement::Return(value) => {
                        assert_eq!(&value.string(), val);
                    }
                    _ => {
                        panic!("stmt not return statement, got = {:?}", stmt);
                    }
                }
            }
        }
        None => {
            panic!("Error parser_program return None");
        }
    }
}

#[test]
fn test_identifier_expression() {
    let input = "footbar;";
    let l = Lexer::new(input);
    let mut p = Parser::new(l);
    let program = p.parse_program();
    match program {
        Some(p) => {
            assert_eq!(p.statements.len(), 1);
            let stmt = p.statements[0].clone();
            match stmt {
                Statement::Expression(e) => {
                    assert_eq!("footbar".to_string(), e.expression.string())
                }
                _ => {
                    panic!("Not a Expression statement")
                }
            }
        }
        None => panic!("parse_program() returns None"),
    }
}

#[test]
fn test_integer_expression() {
    let input = "5;";
    let l = Lexer::new(input);
    let mut p = Parser::new(l);
    let program = p.parse_program();
    check_parser_errors(&p);

    match program {
        Some(p) => {
            if p.statements.len() != 1 {
                panic!("program has not enough statements. got = {}", p.statements.len());
            }
            let stmt = p.statements[0].clone();
            match stmt {
                Statement::Expression(expr) => match expr.expression {
                    Expr::Integer(i) => assert_eq!(5, i),
                    other => panic!("not an integer literal, got {}", other.string()),
                },
                _ => {
                    panic!("Not Expression statement");
                }
            }
        }
        None => {
            panic!("parse_program() error");
        }
    }
}

#[test]
fn test_prefix_expression() {
    let prefix_test: Vec<(&str, TokenType, i64)> = vec![
        ("!5;", TokenType::Bang, 5),
        ("-15;", TokenType::Minus, 15),
        ("!true", TokenType::Bang, 1),
        ("!false", TokenType::Bang, 0),
    ];

    for (input, expected_op, expected_right) in prefix_test {
        let l = Lexer::new(input);
        let mut p = Parser::new(l);
        let programs = p.parse_program();
        match programs {
            Some(program) => {
                check_parser_errors(&p);
                assert_eq!(
                    program.statements.len(),
                    1,
                    "want 1 stmt, got {}",
                    program.statements.len()
                );
                let stmt = program.statements[0].clone();
                match stmt {
                    Statement::Expression(expr_stmt) => match expr_stmt.expression {
                        Expr::Prefix { op, right } => {
                            assert_eq!(op, expected_op);
                            match *right {
                                Expr::Boolean(b) => {
                                    let got: i64 = if b { 1 } else { 0 };
                                    assert_eq!(
                                        got, expected_right,
                                        "expect {}, got {}",
                                        expected_right, got
                                    );
                                }
                                Expr::Integer(int) => {
                                    assert_eq!(
                                        int, expected_right,
                                        "expect {}, got {}",
                                        expected_right, int
                                    )
                                }
                                other => panic!("unexpected operand {}", other.string()),
                            }
                        }
                        other => panic!("not a prefix expression, got {}", other.string()),
                    },
                    other => {
                        panic!(
                            "program.statements[0] is not a expression, got {} instead",
                            other.string()
                        )
                    }
                }
            }
            None => {
                panic!("Error parse_program()");
            }
        }
    }
}

#[test]
fn test_infix_expression() {
    let infix_test: Vec<(&str, i64, TokenType, i64)> = vec![
        ("5 + 5;", 5, TokenType::Plus, 5),
        ("5 - 5;", 5, TokenType::Minus, 5),
        ("5 * 5;", 5, TokenType::Asterisk, 5),
        ("5 / 5;", 5, TokenType::Slash, 5),
        ("5 > 5;", 5, TokenType::Gt, 5),
        ("5 < 5;", 5, TokenType::Lt, 5),
        ("5 == 5;", 5, TokenType::Eq, 5),
        ("5 != 5;", 5, TokenType::NotEq, 5),
    ];

    for (input, expected_left, expected_op, expected_right) in infix_test {
        let l = Lexer::new(input);
        let mut p = Parser::new(l);
        let programs = p.parse_program();
        match programs {
            Some(program) => {
                assert_eq!(
                    program.statements.len(),
                    1,
                    "want 1 stmt, got {}",
                    program.statements.len()
                );
                let stmt = program.statements[0].clone();
                match stmt {
                    Statement::Expression(expre) => match expre.expression {
                        Expr::Infix { left, op, right } => {
                            assert_eq!(op, expected_op);
                            match *left {
                                Expr::Integer(i) => assert_eq!(i, expected_left),
                                other => panic!("left is not an integer: {}", other.string()),
                            }
                            match *right {
                                Expr::Integer(i) => assert_eq!(i, expected_right),
                                other => panic!("right is not an integer: {}", other.string()),
                            }
                        }
                        other => panic!("not an infix expression, got {}", other.string()),
                    },
                    _ => panic!("program.statement[0] is not an expression statement"),
                }
            }
            None => {
                panic!("parser_program() error");
            }
        }
    }
}

#[test]
fn test_operator_precedence_parsing() {
    let tests: Vec<(&str, &str)> = vec![
        ("-a * b", "((-a) * b)"),
        ("!-a", "(!(-a))"),
        ("a + b + c", "((a + b) + c)"),
        ("a + b - c", "((a + b) - c)"),
        ("a * b * c", "((a * b) * c)"),
        ("a * b / c", "((a * b) / c)"),
        ("a + b / c", "(a + (b / c))"),
        ("a + b * c + d / e - f", "(((a + (b * c)) + (d / e)) - f)"),
        ("3 + 4; -5 * 5", "(3 + 4)((-5) * 5)"),
        ("5 > 4 == 3 < 4", "((5 > 4) == (3 < 4))"),
        ("5 < 4 != 3 > 4", "((5 < 4) != (3 > 4))"),
        ("3 + 4 * 5 == 3 * 1 + 4 * 5", "((3 + (4 * 5)) == ((3 * 1) + (4 * 5)))"),
        ("3 + 4 * 5 != 3 * 1 + 4 * 5", "((3 + (4 * 5)) != ((3 * 1) + (4 * 5)))"),
        ("true", "true"),
        ("false", "false"),
        ("3 > 5 == false", "((3 > 5) == false)"),
        ("3 < 5 == true", "((3 < 5) == true)"),
        ("a + add(b * c) + d", "((a + add((b * c))) + d)"),
        (
            "add(a, b, 1, 2 * 3, 4 + 5, add(6, 7 * 8))",
            "add(a, b, 1, (2 * 3), (4 + 5), add(6, (7 * 8)))",
        ),
        ("add(a+b+c *d /f +g)", "add((((a + b) + ((c * d) / f)) + g))"),
    ];

    for (input, expected) in tests {
        let l = Lexer::new(input);
        let mut p = Parser::new(l);
        let program = p.parse_program();
        check_parser_errors(&p);
        match program {
            Some(p) => {
                let actual = p.string();
                assert_eq!(&actual, expected, "expected {}, actual got {}", expected, &actual)
            }
            None => panic!("Error parse_program()"),
        }
    }
}

#[test]
fn test_boolean() {
    let input = "true;false;";
    let tests = vec![true, false];

    let lexer = Lexer::new(input);
    let mut parser = Parser::new(lexer);
    let programs = parser.parse_program().unwrap();
    assert_eq!(2, programs.statements.len());

    for (stmt, tt) in zip(programs.statements, tests) {
        match stmt {
            Statement::Expression(expr) => match expr.expression {
                Expr::Boolean(b) => assert_eq!(b, tt),
                _ => panic!("not a Expr::Boolean(bool), got {}", expr.expression.string()),
            },
            other => panic!("not an expression statement, got {}", other.string()),
        }
    }
}

#[test]
fn test_if_expression() {
    let input = "if (x < y) { x }";
    let l = Lexer::new(input);
    let mut p = Parser::new(l);
    check_parser_errors(&p);

    let program = p.parse_program().unwrap();
    check_parser_errors(&p);
    assert_eq!(
        1,
        program.statements.len(),
        "program body does not contain {} statements. got {}",
        1,
        program.statements.len()
    );

    match program.statements[0].clone() {
        Statement::Expression(expr) => match expr.expression {
            Expr::IfExpression { condition, consequence, alternative } => {
                assert_eq!("(x < y)", &condition.string());
                assert_eq!("x", &consequence.string());
                assert_eq!("None", &alternative.string())
            }
            other => panic!("not an if expression, got {}", other.string()),
        },
        _ => panic!("Not a Expression"),
    }
}

#[test]
fn test_if_else_expression() {
    let input = "if (x < y) { x } else { y }";
    let l = Lexer::new(input);
    let mut p = Parser::new(l);
    check_parser_errors(&p);
    let program = p.parse_program().unwrap();
    check_parser_errors(&p);

    assert_eq!(
        1,
        program.statements.len(),
        "expected 1 statements, got {}",
        program.statements.len()
    );

    match program.statements[0].clone() {
        Statement::Expression(expr_stmt) => match expr_stmt.expression {
            Expr::IfExpression { condition, consequence, alternative } => {
                assert_eq!("(x < y)", &condition.string());
                assert_eq!("x", &consequence.string());
                assert_eq!("y", &alternative.string());
            }
            _ => {
                panic!("Not a if expression")
            }
        },
        _ => {
            panic!("Not a Expression");
        }
    }
}

#[test]
fn test_fn_literal() {
    let input = "fn(x, y) {x + y;}";
    let l = Lexer::new(input);
    let mut p = Parser::new(l);
    let program = p.parse_program().unwrap();
    check_parser_errors(&p);

    assert_eq!(
        1,
        program.statements.len(),
        "expected 1 statements, got {}",
        program.statements.len()
    );
    match program.statements[0].clone() {
        Statement::Expression(expr_stmt) => match expr_stmt.expression {
            Expr::Fn(func) => {
                assert_eq!(
                    func.parameters.len(),
                    2,
                    "Expected 2 parameters, got {}",
                    func.parameters.len()
                );
                assert_eq!(func.parameters[0].string(), "x".to_string());
                assert_eq!(func.parameters[1].string(), "y".to_string());
                match *func.body {
                    Statement::Block(expr_body) => {
                        assert_eq!(expr_body.statements.len(), 1);
                        assert_eq!(expr_body.string(), "(x + y)".to_string());
                    }
                    _ => {
                        panic!("function body stmt is not Statement::Expression(expr_body)");
                    }
                }
            }
            other => panic!("not a function literal, got {}", other.string()),
        },
        _ => {
            panic!("program.statements[0] is not a Statement::Expression");
        }
    }
}

#[test]
fn test_fn_parameter_parsing() {
    let tests: Vec<(&str, Vec<&str>)> =
        vec![("fn() {}", Vec::new()), ("fn(x) {}", vec!["x"]), ("fn(x, y) {}", vec!["x", "y"])];

    for (input, expected) in tests {
        let l = Lexer::new(input);
        let mut p = Parser::new(l);
        check_parser_errors(&p);
        let program = p.parse_program().unwrap();
        check_parser_errors(&p);

        assert_eq!(
            1,
            program.statements.len(),
            "expected 1 statements, got {}",
            program.statements.len()
        );

        let stmt = program.statements[0].clone();
        match stmt {
            Statement::Expression(e) => match e.expression {
                Expr::Fn(func) => {
                    assert_eq!(func.parameters.len(), expected.len());
                    for (i, i_t) in zip(func.parameters, expected) {
                        assert_eq!(&i.string(), i_t)
                    }
                }
                other => panic!("not a function literal, got {}", other.string()),
            },
            _ => {
                panic!("not a expression")
            }
        }
    }
}

#[test]
fn test_call_expression() {
    let input = "add(1,2 * 3,4 + 5);";
    let lexer = Lexer::new(input);
    let mut parser = Parser::new(lexer);
    let program = parser.parse_program().unwrap();
    check_parser_errors(&parser);

    assert_eq!(
        1,
        program.statements.len(),
        "program statements does not contain {} statements",
        program.statements.len()
    );

    match program.statements[0].clone() {
        Statement::Expression(expr) => match expr.expression {
            Expr::Call { function, arguments } => {
                assert_eq!(function.string(), "add".to_string(),);
                assert_eq!(arguments.len(), 3);
                assert_eq!(arguments[0].string(), "1".to_string());
                assert_eq!(arguments[1].string(), "(2 * 3)".to_string());
                assert_eq!(arguments[2].string(), "(4 + 5)".to_string());
            }
            _ => {
                panic!("expression is not a call expression")
            }
        },
        _ => {
            panic!("program.statements[0] is not an expression");
        }
    }
}
