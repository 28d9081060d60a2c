//! The tree-walking evaluator.

use vstd::prelude::*;
use vstd::string::*;
use crate::ast::{statement_views, Expr, ExprView, Program, Statement, StatementView};
use crate::object::{Object, ObjectView};
use crate::token::TokenType;

verus! {

/// The outcome of evaluating a part of a program, as a mathematical value.
pub enum FlowView {
    /// Evaluation fell through with this value.
    Value(ObjectView),
    /// A `return` was met; the value travels up unchanged.
    Return(ObjectView),
}

impl FlowView {
    /// The value carried, whichever way evaluation ended.
    pub open spec fn value(self) -> ObjectView {
        match self {
            FlowView::Value(v) => v,
            FlowView::Return(v) => v,
        }
    }
}

/// The outcome of evaluating a part of a program.
#[derive(Debug)]
pub enum EvalFlow {
    Value(Object),
    Return(Object),
}

impl View for EvalFlow {
    type V = FlowView;

    open spec fn view(&self) -> FlowView {
        match self {
            EvalFlow::Value(v) => FlowView::Value(v@),
            EvalFlow::Return(v) => FlowView::Return(v@),
        }
    }
}

/// Truthiness: a boolean counts as itself, an integer as true unless it is
/// zero, and everything else as false.
pub open spec fn truthy(o: ObjectView) -> bool {
    match o {
        ObjectView::Boolean(b) => b,
        ObjectView::Integer(i) => i != 0,
        _ => false,
    }
}

/// Negation in 64-bit two's complement: the least integer is its own negative.
pub open spec fn negated(i: i64) -> i64 {
    if i == i64::MIN {
        i64::MIN
    } else {
        (-i) as i64
    }
}

/// The quotient of `x` by `d`, rounded toward zero. The divisor is not zero.
pub open spec fn toward_zero(x: int, d: int) -> int
    recommends
        d != 0,
{
    if x >= 0 && d > 0 {
        x / d
    } else if x < 0 && d < 0 {
        (-x) / (-d)
    } else if x < 0 {
        -((-x) / d)
    } else {
        -(x / (-d))
    }
}

/// Division that rounds toward zero, in 64-bit two's complement: the one
/// quotient that does not fit, that of the least integer by -1, wraps to the
/// least integer. The divisor is not zero.
pub open spec fn quotient(l: i64, r: i64) -> i64
    recommends
        r != 0,
{
    if l == i64::MIN && r == -1 {
        i64::MIN
    } else {
        toward_zero(l as int, r as int) as i64
    }
}

/// A quotient rounded toward zero is no larger in magnitude than the
/// dividend.
pub proof fn lemma_toward_zero_bound(x: int, d: int)
    requires
        d != 0,
    ensures
        x >= 0 ==> -x <= toward_zero(x, d) <= x,
        x < 0 ==> x <= toward_zero(x, d) <= -x,
        x == 0 ==> toward_zero(x, d) == 0,
        d == -1 ==> toward_zero(x, d) == -x,
        x < 0 && d < -1 ==> toward_zero(x, d) < -x,
        (x < 0) != (d < 0) ==> toward_zero(x, d) <= 0,
{
    assert(forall|a: int, b: int| a > 0 && b > 1 ==> #[trigger] (a / b) < a) by (nonlinear_arith);
    assert(forall|a: int, b: int| a >= 0 && b > 0 ==> 0 <= #[trigger] (a / b) <= a)
        by (nonlinear_arith);
}

/// The value of a prefix operator applied to a value that is no error.
pub open spec fn prefix_value(op: TokenType, v: ObjectView) -> ObjectView {
    match op {
        TokenType::Bang => ObjectView::Boolean(!truthy(v)),
        TokenType::Minus => match v {
            ObjectView::Integer(i) => ObjectView::Integer(negated(i)),
            _ => ObjectView::Error("unknown operator: - "@ + v.debug_text()),
        },
        TokenType::Plus => match v {
            ObjectView::Integer(i) => ObjectView::Integer(i),
            _ => ObjectView::Error("unknown operator: + "@ + v.debug_text()),
        },
        _ => ObjectView::Error("unknown prefix operator: "@ + op.symbol_text()),
    }
}

/// The error of an infix operation: what is wrong, then the left operand,
/// the operator and the right operand.
pub open spec fn infix_error(
    head: Seq<char>,
    left: ObjectView,
    op: TokenType,
    right: ObjectView,
) -> ObjectView {
    ObjectView::Error(
        head + left.debug_text() + " "@ + op.symbol_text() + " "@ + right.debug_text(),
    )
}

/// The error of an operator that the kind of its operands does not have.
pub open spec fn unknown_operator(left: ObjectView, op: TokenType, right: ObjectView) -> ObjectView {
    infix_error("unknown operator: "@, left, op, right)
}

/// The value of an infix operator on two integers. Sums, differences and
/// products wrap around in 64 bits.
pub open spec fn integer_infix(op: TokenType, l: i64, r: i64) -> ObjectView {
    match op {
        TokenType::Plus => ObjectView::Integer(l.wrapping_add(r)),
        TokenType::Minus => ObjectView::Integer(l.wrapping_sub(r)),
        TokenType::Asterisk => ObjectView::Integer(l.wrapping_mul(r)),
        TokenType::Slash => if r == 0 {
            ObjectView::Error("division by zero"@)
        } else {
            ObjectView::Integer(quotient(l, r))
        },
        TokenType::Eq => ObjectView::Boolean(l == r),
        TokenType::NotEq => ObjectView::Boolean(l != r),
        TokenType::Ge => ObjectView::Boolean(l >= r),
        TokenType::Le => ObjectView::Boolean(l <= r),
        TokenType::Gt => ObjectView::Boolean(l > r),
        TokenType::Lt => ObjectView::Boolean(l < r),
        _ => unknown_operator(ObjectView::Integer(l), op, ObjectView::Integer(r)),
    }
}

/// The value of an infix operator on two values: two integers have the
/// arithmetic operators and the comparisons, two booleans have `==` and
/// `!=`, and operands of any other kinds are mismatched.
pub open spec fn infix_value(op: TokenType, left: ObjectView, right: ObjectView) -> ObjectView {
    match (left, right) {
        (ObjectView::Integer(l), ObjectView::Integer(r)) => integer_infix(op, l, r),
        (ObjectView::Boolean(l), ObjectView::Boolean(r)) => match op {
            TokenType::Eq => ObjectView::Boolean(l == r),
            TokenType::NotEq => ObjectView::Boolean(l != r),
            _ => unknown_operator(left, op, right),
        },
        _ => infix_error("type mismatch: "@, left, op, right),
    }
}

/// What the value of a statement does to the evaluation of the list it
/// stands in: a `Return` and an error end it, another value goes on as the
/// running result.
pub open spec fn stops(flow: FlowView) -> bool {
    flow is Return || flow.value() is Error
}

/// The outcome of an expression.
pub open spec fn expr_flow(e: ExprView) -> FlowView
    decreases e, 0nat,
{
    match e {
        ExprView::Integer(i) => FlowView::Value(ObjectView::Integer(i)),
        ExprView::Boolean(b) => FlowView::Value(ObjectView::Boolean(b)),
        ExprView::Prefix { op, right } => {
            let operand = expr_flow(*right);
            if stops(operand) {
                operand
            } else {
                FlowView::Value(prefix_value(op, operand.value()))
            }
        },
        ExprView::Infix { left, op, right } => {
            let first = expr_flow(*left);
            if stops(first) {
                first
            } else {
                let second = expr_flow(*right);
                if stops(second) {
                    second
                } else {
                    FlowView::Value(infix_value(op, first.value(), second.value()))
                }
            }
        },
        ExprView::If { condition, consequence, alternative } => {
            let test = expr_flow(*condition);
            if stops(test) {
                test
            } else if truthy(test.value()) {
                statement_flow(*consequence)
            } else {
                statement_flow(*alternative)
            }
        },
        _ => FlowView::Value(ObjectView::Null),
    }
}

/// The outcome of a statement that stands alone, as the branch of a
/// conditional does.
pub open spec fn statement_flow(s: StatementView) -> FlowView
    decreases s, 0nat,
{
    match s {
        StatementView::Block(items) => block_flow(items, 0, ObjectView::Null),
        StatementView::Expression(e) => expr_flow(e),
        StatementView::Return(e) => FlowView::Return(expr_flow(e).value()),
        _ => FlowView::Value(ObjectView::Null),
    }
}

/// The outcome of the statements of `items` from index `i` on, where `last`
/// is the value of the latest statement before them that had one.
pub open spec fn block_flow(items: Seq<StatementView>, i: nat, last: ObjectView) -> FlowView
    decreases items, items.len() - i,
{
    if i >= items.len() {
        FlowView::Value(last)
    } else {
        match items[i as int] {
            StatementView::Block(inner) => {
                let flow = block_flow(inner, 0, ObjectView::Null);
                if stops(flow) {
                    flow
                } else {
                    block_flow(items, i + 1, flow.value())
                }
            },
            StatementView::Expression(e) => {
                let flow = expr_flow(e);
                if stops(flow) {
                    flow
                } else {
                    block_flow(items, i + 1, flow.value())
                }
            },
            StatementView::Return(e) => FlowView::Return(expr_flow(e).value()),
            _ => block_flow(items, i + 1, last),
        }
    }
}

/// The value of a program: the value its statements end with, whether by a
/// `return` or by running to the end.
pub open spec fn program_value(program: Seq<StatementView>) -> ObjectView {
    block_flow(program, 0, ObjectView::Null).value()
}

/// An error value with the given message.
pub fn err(msg: String) -> (o: Object)
    ensures
        o@ == ObjectView::Error(msg@),
{
    Object::Error(msg)
}

/// Whether `o` is an error value.
pub fn is_error(o: &Object) -> (r: bool)
    ensures
        r == (o@ is Error),
{
    match o {
        Object::Error(_) => true,
        _ => false,
    }
}

/// The truthiness of `o`.
pub fn is_truthy(o: &Object) -> (r: bool)
    ensures
        r == truthy(o@),
{
    match o {
        Object::Boolean(b) => *b,
        Object::Integer(i) => *i != 0,
        _ => false,
    }
}

fn message(head: &str, tail: &str) -> (o: Object)
    ensures
        o@ == ObjectView::Error(head@ + tail@),
{
    let mut text = head.to_owned();
    text.append(tail);
    Object::Error(text)
}

fn complaint(head: &str, left: &Object, op: &TokenType, right: &Object) -> (o: Object)
    ensures
        o@ == infix_error(head@, left@, *op, right@),
{
    let mut text = head.to_owned();
    text.append(left.debug_string().as_str());
    text.append(" ");
    text.append(op.symbol());
    text.append(" ");
    text.append(right.debug_string().as_str());
    Object::Error(text)
}

/// Divides, rounding toward zero; the one quotient that does not fit wraps.
fn divide(l: i64, r: i64) -> (q: i64)
    requires
        r != 0,
    ensures
        q == quotient(l, r),
{
    proof {
        let x = l as int;
        let d = r as int;
        lemma_toward_zero_bound(x, d);
    }
    match l.checked_div(r) {
        Some(q) => q,
        None => i64::MIN,
    }
}

/// Applies a prefix operator to a value.
pub fn eval_prefix_expression(op: &TokenType, right: Object) -> (o: Object)
    ensures
        o@ == prefix_value(*op, right@),
{
    match op {
        TokenType::Bang => Object::Boolean(!is_truthy(&right)),
        TokenType::Minus => match right {
            Object::Integer(i) => Object::Integer(0i64.wrapping_sub(i)),
            _ => message("unknown operator: - ", right.debug_string().as_str()),
        },
        TokenType::Plus => match right {
            Object::Integer(i) => Object::Integer(i),
            _ => message("unknown operator: + ", right.debug_string().as_str()),
        },
        _ => message("unknown prefix operator: ", op.symbol()),
    }
}

/// Applies an infix operator to two values.
pub fn eval_infix_expression(op: &TokenType, left: Object, right: Object) -> (o: Object)
    ensures
        o@ == infix_value(*op, left@, right@),
{
    match (&left, &right) {
        (Object::Integer(l), Object::Integer(r)) => {
            let l = *l;
            let r = *r;
            match *op {
                TokenType::Plus => Object::Integer(l.wrapping_add(r)),
                TokenType::Minus => Object::Integer(l.wrapping_sub(r)),
                TokenType::Asterisk => Object::Integer(l.wrapping_mul(r)),
                TokenType::Slash => {
                    if r == 0 {
                        err("division by zero".to_owned())
                    } else {
                        Object::Integer(divide(l, r))
                    }
                },
                TokenType::Eq => Object::Boolean(l == r),
                TokenType::NotEq => Object::Boolean(l != r),
                TokenType::Ge => Object::Boolean(l >= r),
                TokenType::Le => Object::Boolean(l <= r),
                TokenType::Gt => Object::Boolean(l > r),
                TokenType::Lt => Object::Boolean(l < r),
                _ => complaint("unknown operator: ", &left, op, &right),
            }
        },
        (Object::Boolean(l), Object::Boolean(r)) => match *op {
            TokenType::Eq => Object::Boolean(*l == *r),
            TokenType::NotEq => Object::Boolean(*l != *r),
            _ => complaint("unknown operator: ", &left, op, &right),
        },
        _ => complaint("type mismatch: ", &left, op, &right),
    }
}

/// Evaluates an expression.
pub fn eval_expr(e: &Expr) -> (flow: EvalFlow)
    ensures
        flow@ == expr_flow(e@),
    decreases e,
{
    match e {
        Expr::Integer(i) => EvalFlow::Value(Object::Integer(*i)),
        Expr::Boolean(b) => EvalFlow::Value(Object::Boolean(*b)),
        Expr::Prefix { op, right } => {
            let rv = match eval_expr(right) {
                EvalFlow::Return(v) => {
                    return EvalFlow::Return(v);
                },
                EvalFlow::Value(v) => v,
            };
            if is_error(&rv) {
                return EvalFlow::Value(rv);
            }
            EvalFlow::Value(eval_prefix_expression(op, rv))
        },
        Expr::Infix { left, op, right } => {
            let lv = match eval_expr(left) {
                EvalFlow::Return(v) => {
                    return EvalFlow::Return(v);
                },
                EvalFlow::Value(v) => v,
            };
            if is_error(&lv) {
                return EvalFlow::Value(lv);
            }
            let rv = match eval_expr(right) {
                EvalFlow::Return(v) => {
                    return EvalFlow::Return(v);
                },
                EvalFlow::Value(v) => v,
            };
            if is_error(&rv) {
                return EvalFlow::Value(rv);
            }
            EvalFlow::Value(eval_infix_expression(op, lv, rv))
        },
        Expr::IfExpression { condition, consequence, alternative } => {
            let cond = match eval_expr(condition) {
                EvalFlow::Return(v) => {
                    return EvalFlow::Return(v);
                },
                EvalFlow::Value(v) => v,
            };
            if is_error(&cond) {
                return EvalFlow::Value(cond);
            }
            if is_truthy(&cond) {
                eval_single_statement(consequence)
            } else {
                eval_single_statement(alternative)
            }
        },
        _ => EvalFlow::Value(Object::Null),
    }
}

/// Evaluates a statement that stands alone, as the branch of a conditional
/// does.
pub fn eval_single_statement(stmt: &Statement) -> (flow: EvalFlow)
    ensures
        flow@ == statement_flow(stmt@),
    decreases stmt,
{
    match stmt {
        Statement::Block(b) => eval_statements(&b.statements),
        Statement::Expression(e) => eval_expr(&e.expression),
        Statement::Return(r) => {
            let v = match eval_expr(&r.return_value) {
                EvalFlow::Return(v) => v,
                EvalFlow::Value(v) => v,
            };
            EvalFlow::Return(v)
        },
        _ => EvalFlow::Value(Object::Null),
    }
}

/// Evaluates a list of statements from left to right. A `return` ends the
/// list and travels up; an error ends it too; otherwise the value of the
/// last statement that has one is the result.
pub fn eval_statements(stmts: &Vec<Statement>) -> (flow: EvalFlow)
    ensures
        flow@ == block_flow(statement_views(stmts@), 0, ObjectView::Null),
    decreases stmts,
{
    let ghost items = statement_views(stmts@);
    let mut last = Object::Null;
    let mut i: usize = 0;
    while i < stmts.len()
        invariant
            i <= stmts@.len(),
            items == statement_views(stmts@),
            block_flow(items, 0, ObjectView::Null) == block_flow(items, i as nat, last@),
        decreases stmts@.len() - i,
    {
        match &stmts[i] {
            Statement::Block(block) => {
                match eval_statements(&block.statements) {
                    EvalFlow::Return(v) => {
                        return EvalFlow::Return(v);
                    },
                    EvalFlow::Value(v) => {
                        if is_error(&v) {
                            return EvalFlow::Value(v);
                        }
                        last = v;
                    },
                }
            },
            Statement::Expression(statement) => {
                match eval_expr(&statement.expression) {
                    EvalFlow::Return(v) => {
                        return EvalFlow::Return(v);
                    },
                    EvalFlow::Value(v) => {
                        if is_error(&v) {
                            return EvalFlow::Value(v);
                        }
                        last = v;
                    },
                }
            },
            Statement::Return(statement) => {
                let v = match eval_expr(&statement.return_value) {
                    EvalFlow::Return(v) => v,
                    EvalFlow::Value(v) => v,
                };
                return EvalFlow::Return(v);
            },
            Statement::Let { .. } => {},
            Statement::Absent => {},
        }
        i += 1;
    }
    EvalFlow::Value(last)
}

/// Evaluates a program to its value. A `return` at the top level yields its
/// value like a trailing expression does.
pub fn eval(program: &Program) -> (o: Object)
    ensures
        o@ == program_value(program@),
{
    match eval_statements(&program.statements) {
        EvalFlow::Value(v) => v,
        EvalFlow::Return(v) => v,
    }
}

/// An operator that two integers or two booleans do not have gives an
/// error whose message begins with `unknown operator: `, and operands of
/// mismatched kinds give one that begins with `type mismatch: `.
pub proof fn lemma_infix_errors(op: TokenType, left: ObjectView, right: ObjectView)
    ensures
        left is Boolean && right is Boolean && op != TokenType::Eq && op != TokenType::NotEq
            ==> infix_value(op, left, right) == unknown_operator(left, op, right),
        left is Integer && right is Integer && infix_value(op, left, right) is Error ==> {
            ||| infix_value(op, left, right) == unknown_operator(left, op, right)
            ||| (op == TokenType::Slash && right == ObjectView::Integer(0) && infix_value(
                op,
                left,
                right,
            ) == ObjectView::Error("division by zero"@))
        },
        !(left is Integer && right is Integer) && !(left is Boolean && right is Boolean)
            ==> infix_value(op, left, right) == infix_error("type mismatch: "@, left, op, right),
        unknown_operator(left, op, right)->Error_0.subrange(0, "unknown operator: "@.len() as int)
            == "unknown operator: "@,
{
    let head = "unknown operator: "@;
    let rest = left.debug_text() + " "@ + op.symbol_text() + " "@ + right.debug_text();
    assert(unknown_operator(left, op, right)->Error_0 =~= head + rest);
    assert((head + rest).subrange(0, head.len() as int) =~= head);
}

/// An error met while an operator's operands are evaluated is the outcome
/// of the whole operation, unchanged: the first operand's error before
/// anything of the second is looked at.
pub proof fn lemma_error_is_sticky(left: ExprView, op: TokenType, right: ExprView)
    requires
        expr_flow(left).value() is Error,
    ensures
        expr_flow(ExprView::Prefix { op, right: Box::new(left) }) == expr_flow(left),
        expr_flow(ExprView::Infix { left: Box::new(left), op, right: Box::new(right) })
            == expr_flow(left),
{
}

/// The error of a condition is the outcome of the conditional, whatever
/// its branches hold.
pub proof fn lemma_error_in_condition(
    condition: ExprView,
    consequence: StatementView,
    alternative: StatementView,
)
    requires
        expr_flow(condition).value() is Error,
    ensures
        expr_flow(
            ExprView::If {
                condition: Box::new(condition),
                consequence: Box::new(consequence),
                alternative: Box::new(alternative),
            },
        ) == expr_flow(condition),
{
}

/// A statement whose outcome is a `return` or an error ends the list it
/// stands in: the outcome of the list is that of the statement, whatever
/// follows.
pub proof fn lemma_statement_ends_list(items: Seq<StatementView>, i: nat, last: ObjectView)
    requires
        i < items.len(),
        items[i as int] is Expression || items[i as int] is Block || items[i as int] is Return,
        items[i as int] !is Return ==> stops(statement_flow(items[i as int])),
    ensures
        block_flow(items, i, last) == statement_flow(items[i as int]),
{
}

/// The value of a conditional whose condition is false and which has no
/// alternative is `Null`.
pub proof fn lemma_no_alternative(condition: ExprView, consequence: StatementView)
    requires
        !stops(expr_flow(condition)),
        !truthy(expr_flow(condition).value()),
    ensures
        expr_flow(
            ExprView::If {
                condition: Box::new(condition),
                consequence: Box::new(consequence),
                alternative: Box::new(StatementView::Absent),
            },
        ) == FlowView::Value(ObjectView::Null),
{
    assert(statement_flow(StatementView::Absent) == FlowView::Value(ObjectView::Null));
}

} // verus!
