use monkeycc::ast::{
    concat_texts, join_texts, BlockStatement, Expr, ExpressionStatement, Function, Ident, Program,
    ReturnStatement, Statement,
};
use monkeycc::token::TokenType;

fn ident(name: &str) -> Expr {
    Expr::Ident(Ident(name.to_string()))
}

fn block(statements: Vec<Statement>) -> Statement {
    Statement::Block(BlockStatement { statements })
}

fn expression(e: Expr) -> Statement {
    Statement::Expression(ExpressionStatement { expression: e })
}

#[test]
fn test_rendering_of_every_expression() {
    assert_eq!(Expr::Absent.string(), "none");
    assert_eq!(ident("x").string(), "x");
    assert_eq!(Expr::Integer(-12).string(), "-12");
    assert_eq!(Expr::Float("1.5".to_string()).string(), "1.5");
    assert_eq!(Expr::Boolean(true).string(), "true");
    assert_eq!(Expr::Boolean(false).string(), "false");
    assert_eq!(
        Expr::Prefix { op: TokenType::Bang, right: Box::new(ident("x")) }.string(),
        "(!x)"
    );
    assert_eq!(
        Expr::Infix { left: Box::new(ident("x")), op: TokenType::Le, right: Box::new(ident("y")) }
            .string(),
        "(x <= y)"
    );
    let conditional = Expr::IfExpression {
        condition: Box::new(ident("c")),
        consequence: Box::new(block(vec![expression(ident("a"))])),
        alternative: Box::new(Statement::Absent),
    };
    assert_eq!(conditional.string(), "ifc a");
    let conditional = Expr::IfExpression {
        condition: Box::new(ident("c")),
        consequence: Box::new(block(vec![expression(ident("a"))])),
        alternative: Box::new(block(vec![expression(ident("b"))])),
    };
    assert_eq!(conditional.string(), "ifc ab");
    let function = Function {
        parameters: vec![Ident("x".to_string()), Ident("y".to_string())],
        body: Box::new(block(vec![expression(ident("x"))])),
    };
    assert_eq!(function.string(), "fn(x, y) x");
    assert_eq!(Expr::Fn(function).string(), "fn(x, y) x");
    let none = Function { parameters: Vec::new(), body: Box::new(block(Vec::new())) };
    assert_eq!(none.string(), "fn() ");
    let call = Expr::Call {
        function: Box::new(ident("f")),
        arguments: vec![Expr::Integer(1), ident("y"), Expr::Boolean(true)],
    };
    assert_eq!(call.string(), "f(1, y, true)");
    let call = Expr::Call { function: Box::new(ident("f")), arguments: Vec::new() };
    assert_eq!(call.string(), "f()");
}

#[test]
fn test_rendering_of_every_statement() {
    assert_eq!(Statement::Absent.string(), "None");
    assert_eq!(
        Statement::Let { name: Ident("x".to_string()), value: Expr::Integer(5) }.string(),
        "let x = 5;"
    );
    assert_eq!(Statement::Return(ReturnStatement { return_value: Expr::Integer(5) }).string(), "5");
    assert_eq!(ReturnStatement { return_value: ident("r") }.string(), "r");
    assert_eq!(ExpressionStatement { expression: ident("e") }.string(), "e");
    assert_eq!(expression(ident("e")).string(), "e");
    assert_eq!(block(vec![expression(ident("a")), Statement::Absent]).string(), "aNone");
    assert_eq!(BlockStatement { statements: Vec::new() }.string(), "");
    assert_eq!(Ident("name".to_string()).string(), "name");
    let program = Program { statements: vec![expression(ident("a")), expression(ident("b"))] };
    assert_eq!(program.string(), "ab");
}

#[test]
fn test_clones_render_alike() {
    let e = Expr::Call {
        function: Box::new(Expr::Fn(Function {
            parameters: vec![Ident("x".to_string())],
            body: Box::new(block(vec![Statement::Return(ReturnStatement {
                return_value: Expr::IfExpression {
                    condition: Box::new(Expr::Boolean(true)),
                    consequence: Box::new(block(vec![Statement::Let {
                        name: Ident("y".to_string()),
                        value: Expr::Float("2.5".to_string()),
                    }])),
                    alternative: Box::new(Statement::Absent),
                },
            })])),
        })),
        arguments: vec![Expr::Prefix { op: TokenType::Minus, right: Box::new(Expr::Integer(3)) }],
    };
    let copy = e.clone();
    assert_eq!(format!("{:?}", copy), format!("{:?}", e));
    assert_eq!(copy.string(), e.string());
    let program = Program { statements: vec![expression(e)] };
    let copy = program.clone();
    assert_eq!(format!("{:?}", copy), format!("{:?}", program));
}

#[test]
fn test_join_and_concat() {
    let parts = vec!["a".to_string(), "b".to_string(), "c".to_string()];
    assert_eq!(join_texts(&parts), "a, b, c");
    assert_eq!(concat_texts(&parts), "abc");
    assert_eq!(join_texts(&Vec::new()), "");
    assert_eq!(concat_texts(&Vec::new()), "");
    assert_eq!(join_texts(&vec!["a".to_string()]), "a");
}
