use monkeycc::ast::{Expr, Ident, Program, Statement};
use monkeycc::grammar::Precedence;
use monkeycc::lexer::Lexer;
use monkeycc::parser::Parser;
use monkeycc::token::TokenType;

fn parse(input: &str) -> (Program, Vec<String>) {
    let mut parser = Parser::new(Lexer::new(input));
    let program = parser.parse_program().unwrap();
    (program, parser.errors())
}

fn ident(name: &str) -> Expr {
    Expr::Ident(Ident(name.to_string()))
}

fn prefix(op: TokenType, right: Expr) -> Expr {
    Expr::Prefix { op, right: Box::new(right) }
}

fn infix(left: Expr, op: TokenType, right: Expr) -> Expr {
    Expr::Infix { left: Box::new(left), op, right: Box::new(right) }
}

fn round_trip(e: Expr) {
    let text = e.string();
    let (program, errors) = parse(&text);
    assert!(errors.is_empty(), "diagnostics for {:?}: {:?}", text, errors);
    assert_eq!(program.statements.len(), 1, "statements for {:?}", text);
    assert_eq!(program.string(), text);
    match &program.statements[0] {
        Statement::Expression(statement) => {
            assert_eq!(format!("{:?}", statement.expression), format!("{:?}", e));
        }
        other => panic!("not an expression statement: {:?}", other),
    }
}

#[test]
fn test_round_trip_of_canonical_expressions() {
    round_trip(ident("a"));
    round_trip(ident("_long_name"));
    round_trip(Expr::Integer(0));
    round_trip(Expr::Integer(42));
    round_trip(Expr::Integer(i64::MAX));
    round_trip(Expr::Boolean(true));
    round_trip(Expr::Boolean(false));
    round_trip(prefix(TokenType::Minus, ident("a")));
    round_trip(prefix(TokenType::Bang, Expr::Boolean(true)));
    round_trip(prefix(TokenType::Plus, Expr::Integer(5)));
    round_trip(prefix(TokenType::Bang, prefix(TokenType::Minus, ident("a"))));
    for op in [
        TokenType::Plus,
        TokenType::Minus,
        TokenType::Asterisk,
        TokenType::Slash,
        TokenType::Lt,
        TokenType::Gt,
        TokenType::Eq,
        TokenType::NotEq,
        TokenType::Le,
        TokenType::Ge,
    ] {
        round_trip(infix(ident("a"), op, Expr::Integer(1)));
        round_trip(infix(
            infix(ident("a"), TokenType::Asterisk, ident("b")),
            op,
            prefix(TokenType::Minus, infix(Expr::Integer(1), op, Expr::Boolean(false))),
        ));
    }
    round_trip(infix(
        ident("a"),
        TokenType::Plus,
        infix(ident("b"), TokenType::Plus, ident("c")),
    ));
    round_trip(infix(
        ident("a"),
        TokenType::Asterisk,
        infix(ident("b"), TokenType::Plus, ident("c")),
    ));
}

#[test]
fn test_a_negative_literal_reads_back_as_a_negation() {
    let text = Expr::Integer(-5).string();
    assert_eq!(text, "-5");
    let (program, errors) = parse(&text);
    assert!(errors.is_empty());
    assert_eq!(program.string(), "(-5)");
}

#[test]
fn test_left_associativity() {
    let (program, errors) = parse("a - b - c");
    assert!(errors.is_empty());
    assert_eq!(program.string(), "((a - b) - c)");
}

#[test]
fn test_precedence_levels() {
    assert_eq!(Precedence::of(TokenType::Eq), Precedence::Equals);
    assert_eq!(Precedence::of(TokenType::NotEq), Precedence::Equals);
    assert_eq!(Precedence::of(TokenType::Lt), Precedence::LessGreater);
    assert_eq!(Precedence::of(TokenType::Gt), Precedence::LessGreater);
    assert_eq!(Precedence::of(TokenType::Le), Precedence::LessGreater);
    assert_eq!(Precedence::of(TokenType::Ge), Precedence::LessGreater);
    assert_eq!(Precedence::of(TokenType::Plus), Precedence::Sum);
    assert_eq!(Precedence::of(TokenType::Minus), Precedence::Sum);
    assert_eq!(Precedence::of(TokenType::Asterisk), Precedence::Product);
    assert_eq!(Precedence::of(TokenType::Slash), Precedence::Product);
    assert_eq!(Precedence::of(TokenType::Lparen), Precedence::Call);
    assert_eq!(Precedence::of(TokenType::Semicolon), Precedence::Lowest);
    assert_eq!(Precedence::of(TokenType::Bang), Precedence::Lowest);
    assert_eq!(Precedence::of(TokenType::Eof), Precedence::Lowest);
    assert_eq!(Precedence::default(), Precedence::Lowest);
    let order = [
        Precedence::Lowest,
        Precedence::Equals,
        Precedence::LessGreater,
        Precedence::Sum,
        Precedence::Product,
        Precedence::Prefix,
        Precedence::Call,
        Precedence::Highest,
    ];
    for (i, level) in order.iter().enumerate() {
        assert_eq!(usize::from(level.level()), i);
    }
    for pair in order.windows(2) {
        assert!(pair[0] < pair[1]);
    }
}

#[test]
fn test_missing_closing_parenthesis_is_a_diagnostic() {
    let (program, errors) = parse("(1 + 2");
    assert_eq!(errors, vec!["expected next token to be Rparen, got Eof instead"]);
    assert_eq!(program.string(), "none");
}

#[test]
fn test_let_without_name_or_assignment_is_dropped() {
    let (program, errors) = parse("let = 5;");
    assert_eq!(errors[0], "expected next token to be Ident, got Assign instead");
    assert!(program.statements.iter().all(|s| !matches!(s, Statement::Let { .. })));

    let (program, errors) = parse("let x 5;");
    assert_eq!(errors[0], "expected next token to be Assign, got Int instead");
    assert!(program.statements.iter().all(|s| !matches!(s, Statement::Let { .. })));
}

#[test]
fn test_statements_without_terminator_end_with_the_input() {
    let (program, errors) = parse("let x = 5");
    assert!(errors.is_empty());
    assert_eq!(program.string(), "let x = 5;");

    let (program, errors) = parse("return 7");
    assert!(errors.is_empty());
    assert_eq!(program.statements.len(), 1);
    assert!(matches!(program.statements[0], Statement::Return(_)));
    assert_eq!(program.string(), "7");
}

#[test]
fn test_let_skips_to_the_semicolon() {
    let (program, errors) = parse("let x = 1 2 3; y");
    assert!(errors.is_empty());
    assert_eq!(program.string(), "let x = 1;y");
}

#[test]
fn test_malformed_conditionals_are_diagnostics() {
    let (program, errors) = parse("if x { 1 }");
    assert_eq!(errors[0], "expected next token to be Lparen, got Ident instead");
    assert!(program.string().starts_with("none"));

    let (_, errors) = parse("if (x { 1 }");
    assert_eq!(errors[0], "expected next token to be Rparen, got Lbrace instead");

    let (_, errors) = parse("if (x) 1");
    assert_eq!(errors[0], "expected next token to be Lbrace, got Int instead");

    let (_, errors) = parse("if (x) { 1 } else 2");
    assert_eq!(errors[0], "expected next token to be Lbrace, got Int instead");
}

#[test]
fn test_malformed_function_literals_are_diagnostics() {
    let (_, errors) = parse("fn x");
    assert_eq!(errors[0], "expected next token to be Lparen, got Ident instead");

    let (_, errors) = parse("fn (x) 1");
    assert_eq!(errors[0], "expected next token to be Lbrace, got Int instead");

    let (program, errors) = parse("fn (x y) { x }");
    assert_eq!(errors[0], "expected next token to be Rparen, got Ident instead");
    assert!(!program.statements.is_empty());
}

#[test]
fn test_malformed_call_is_a_diagnostic() {
    let (program, errors) = parse("add(1, 2");
    assert_eq!(errors, vec!["expected next token to be Rparen, got Eof instead"]);
    assert_eq!(program.string(), "none");
}

#[test]
fn test_failed_statement_inside_block() {
    let (program, errors) = parse("if (x) { let 5; }");
    assert!(errors.iter().any(|e| e == "failed to parse statement inside block"), "{:?}", errors);
    assert_eq!(errors[0], "expected next token to be Ident, got Int instead");
    assert_eq!(program.statements.len(), 1);
}

#[test]
fn test_unterminated_block_ends_with_the_input() {
    let (program, errors) = parse("if (x) { 1; 2");
    assert!(errors.is_empty());
    assert_eq!(program.string(), "ifx 12");
}

#[test]
fn test_integer_literal_too_large_reads_as_zero() {
    let (program, _) = parse("9223372036854775808");
    assert_eq!(program.string(), "0");
    let (program, _) = parse("9223372036854775807");
    assert_eq!(program.string(), "9223372036854775807");
}

#[test]
fn test_token_that_starts_no_expression_is_the_placeholder() {
    let (program, errors) = parse(")");
    assert!(errors.is_empty());
    assert_eq!(program.string(), "none");
}

#[test]
fn test_empty_input_is_the_empty_program() {
    let (program, errors) = parse("");
    assert!(errors.is_empty());
    assert!(program.statements.is_empty());
    assert_eq!(program.string(), "");
}

#[test]
fn test_parser_steps() {
    let mut parser = Parser::new(Lexer::new("a + b"));
    assert!(parser.is_well_formed());
    assert!(parser.cur_token_is(TokenType::Ident));
    assert!(parser.peek_token_is(TokenType::Plus));
    assert!(!parser.cur_token_is(TokenType::Plus));
    assert_eq!(parser.cur_precedence(), Precedence::Lowest);
    assert_eq!(parser.peek_precedence(), Precedence::Sum);
    assert!(!parser.expect_peek(TokenType::Minus));
    assert_eq!(parser.errors(), vec!["expected next token to be Minus, got Plus instead"]);
    assert!(parser.cur_token_is(TokenType::Ident));
    assert!(parser.expect_peek(TokenType::Plus));
    assert!(parser.cur_token_is(TokenType::Plus));
    assert_eq!(parser.cur_precedence(), Precedence::Sum);
    parser.next_token();
    assert!(parser.cur_token_is(TokenType::Ident));
    assert!(parser.peek_token_is(TokenType::Eof));
    parser.next_token();
    parser.next_token();
    assert!(parser.cur_token_is(TokenType::Eof));
    parser.peek_errors(TokenType::Rbrace);
    assert_eq!(parser.errors().len(), 2);
    assert_eq!(parser.errors()[1], "expected next token to be Rbrace, got Eof instead");
}

#[test]
fn test_parts_of_the_parser_alone() {
    let mut parser = Parser::new(Lexer::new("1 + 2 * 3"));
    assert_eq!(parser.parse_expression(Precedence::Sum).string(), "1");
    assert!(parser.peek_token_is(TokenType::Plus));

    let mut parser = Parser::new(Lexer::new("1 + 2 * 3"));
    assert_eq!(parser.parse_expression(Precedence::Lowest).string(), "(1 + (2 * 3))");

    let mut parser = Parser::new(Lexer::new("+ 2 * 3 - 4"));
    assert_eq!(parser.parse_infix_expression(Expr::Integer(1)).string(), "(1 + (2 * 3))");
    assert!(parser.peek_token_is(TokenType::Minus));

    let mut parser = Parser::new(Lexer::new("(x, 1 + 2)"));
    assert_eq!(parser.parse_call_expression(ident("f")).string(), "f(x, (1 + 2))");

    let mut parser = Parser::new(Lexer::new("()"));
    assert_eq!(parser.parse_call_arguments().unwrap().len(), 0);

    let mut parser = Parser::new(Lexer::new("(a, b, c)"));
    let names = parser.parse_function_parameters();
    assert_eq!(names.len(), 3);
    assert_eq!(names[2].string(), "c");
    assert!(parser.cur_token_is(TokenType::Rparen));

    let mut parser = Parser::new(Lexer::new("true"));
    assert!(matches!(parser.parse_boolean(), Expr::Boolean(true)));
    let mut parser = Parser::new(Lexer::new("false"));
    assert!(matches!(parser.parse_boolean(), Expr::Boolean(false)));

    let mut parser = Parser::new(Lexer::new("{ a; b }"));
    assert_eq!(parser.parse_block_statement().string(), "ab");
    assert!(parser.cur_token_is(TokenType::Rbrace));

    let mut parser = Parser::new(Lexer::new("let a = 1;"));
    assert_eq!(parser.parse_let_statement().unwrap().string(), "let a = 1;");

    let mut parser = Parser::new(Lexer::new("return a;"));
    assert_eq!(parser.parse_return_statement().unwrap().string(), "a");

    let mut parser = Parser::new(Lexer::new("a; b"));
    assert_eq!(parser.parse_expression_statement().unwrap().string(), "a");
    assert!(parser.cur_token_is(TokenType::Semicolon));

    let mut parser = Parser::new(Lexer::new("if (a) { b } else { c }"));
    assert_eq!(parser.parse_if_expression().string(), "ifa bc");

    let mut parser = Parser::new(Lexer::new("fn (a, b) { a }"));
    assert_eq!(parser.parse_function().string(), "fn(a, b) a");

    let mut parser = Parser::new(Lexer::new("return 1; 2"));
    assert_eq!(parser.parse_statement().string(), "1");
}
