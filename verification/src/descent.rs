//! Parsing only ever moves forward: whatever is parsed, the state after it
//! has no more budget than the state before it, and the same source.

use vstd::prelude::*;
use crate::ast::{ExprView, StatementView};
use crate::grammar::{
    block, block_error, block_items, call_arguments, call_expression, expect, expression,
    expression_statement, fold_operators, function_literal, function_parameters, if_expression,
    infix_expression, lemma_advance, let_statement, more_arguments, more_parameters, program,
    program_items, return_statement, statement, statement_end, ParserView, Precedence,
};
use crate::token::TokenType;

verus! {

/// The state `after` follows the state `before`: the budget has not grown
/// and the source is the same.
pub open spec fn follows(after: ParserView, before: ParserView) -> bool {
    after.budget() <= before.budget() && after.source == before.source
}

/// A state that follows another is what `after` makes of it.
pub proof fn lemma_follows_after(after: ParserView, before: ParserView)
    requires
        follows(after, before),
    ensures
        after.after(before) == after,
{
}

/// Requiring a token moves forward.
pub proof fn lemma_expect(s: ParserView, kind: TokenType)
    ensures
        follows(expect(s, kind).1, s),
        expect(s, kind).0 && s.budget() > 0 ==> expect(s, kind).1.budget() < s.budget(),
{
    lemma_advance(s);
}

/// Skipping to the end of a statement moves forward.
pub proof fn lemma_statement_end(s: ParserView)
    ensures
        follows(statement_end(s), s),
    decreases s.budget(),
{
    reveal(statement_end);
    if !(s.cur.kind == TokenType::Semicolon || s.cur.kind == TokenType::Eof) {
        lemma_advance(s);
        lemma_statement_end(s.advance());
    }
}

/// Parsing the later parameters moves forward.
pub proof fn lemma_more_parameters(s: ParserView, names: Seq<Seq<char>>)
    ensures
        follows(more_parameters(s, names).1, s),
    decreases s.budget(),
{
    reveal(more_parameters);
    if s.peek.kind == TokenType::Comma {
        lemma_advance(s);
        lemma_advance(s.advance());
        let at_name = s.advance().advance();
        lemma_more_parameters(at_name, names.push(at_name.cur.literal));
    }
}

/// Parsing a parameter list moves forward.
pub proof fn lemma_function_parameters(s: ParserView)
    ensures
        follows(function_parameters(s).1, s),
{
    reveal(more_parameters);
    lemma_advance(s);
    if s.peek.kind != TokenType::Rparen {
        let at_name = s.advance();
        lemma_more_parameters(at_name, seq![at_name.cur.literal]);
        lemma_expect(more_parameters(at_name, seq![at_name.cur.literal]).1, TokenType::Rparen);
    }
}

/// Parsing an expression moves forward.
pub proof fn lemma_expression(s: ParserView, prec: Precedence)
    ensures
        follows(expression(s, prec).1, s),
    decreases s.budget(), 5nat,
{
    reveal(fold_operators);
    reveal(if_expression);
    reveal(function_literal);
    reveal(expression);
    match s.cur.kind {
        TokenType::Ident => {
            lemma_fold_operators(s, ExprView::Ident(s.cur.literal), prec);
        },
        TokenType::Int => {
            lemma_fold_operators(
                s,
                ExprView::Integer(crate::grammar::integer_of(s.cur.literal)),
                prec,
            );
        },
        TokenType::True => {
            lemma_fold_operators(s, ExprView::Boolean(true), prec);
        },
        TokenType::False => {
            lemma_fold_operators(s, ExprView::Boolean(false), prec);
        },
        TokenType::Bang | TokenType::Minus | TokenType::Plus => {
            lemma_advance(s);
            lemma_expression(s.advance(), Precedence::Prefix);
            let operand = expression(s.advance(), Precedence::Prefix);
            lemma_fold_operators(
                operand.1.after(s),
                ExprView::Prefix { op: s.cur.kind, right: Box::new(operand.0) },
                prec,
            );
        },
        TokenType::Lparen => {
            lemma_advance(s);
            lemma_expression(s.advance(), Precedence::Lowest);
            let inner = expression(s.advance(), Precedence::Lowest);
            lemma_expect(inner.1.after(s), TokenType::Rparen);
            let closed = expect(inner.1.after(s), TokenType::Rparen);
            if closed.0 {
                lemma_fold_operators(closed.1.after(s), inner.0, prec);
            }
        },
        TokenType::If => {
            lemma_if_expression(s);
            let parsed = if_expression(s);
            lemma_fold_operators(parsed.1.after(s), parsed.0, prec);
        },
        TokenType::Function => {
            lemma_function_literal(s);
            let parsed = function_literal(s);
            lemma_fold_operators(parsed.1.after(s), parsed.0, prec);
        },
        _ => {
            lemma_fold_operators(s, ExprView::Absent, prec);
        },
    }
}

/// Taking the operators that follow an operand moves forward.
pub proof fn lemma_fold_operators(s: ParserView, left: ExprView, prec: Precedence)
    ensures
        follows(fold_operators(s, left, prec).1, s),
    decreases s.budget(), 3nat,
{
    reveal(call_expression);
    reveal(infix_expression);
    reveal(fold_operators);
    if prec.rank() < Precedence::of_kind(s.peek.kind).rank() {
        lemma_advance(s);
        let at_operator = s.advance();
        if at_operator.cur.kind == TokenType::Lparen {
            lemma_call_expression(at_operator, left);
        } else {
            lemma_infix_expression(at_operator, left);
        }
        let extended = if at_operator.cur.kind == TokenType::Lparen {
            call_expression(at_operator, left)
        } else {
            infix_expression(at_operator, left)
        };
        lemma_fold_operators(extended.1.after(at_operator), extended.0, prec);
    }
}

/// Parsing a right operand moves forward.
pub proof fn lemma_infix_expression(s: ParserView, left: ExprView)
    ensures
        follows(infix_expression(s, left).1, s),
    decreases s.budget(), 8nat,
{
    reveal(expression);
    reveal(infix_expression);
    lemma_advance(s);
    lemma_expression(s.advance(), Precedence::of_kind(s.cur.kind));
}

/// Parsing a call moves forward.
pub proof fn lemma_call_expression(s: ParserView, function: ExprView)
    ensures
        follows(call_expression(s, function).1, s),
    decreases s.budget(), 8nat,
{
    reveal(call_arguments);
    reveal(call_expression);
    lemma_call_arguments(s);
}

/// Parsing an argument list moves forward.
pub proof fn lemma_call_arguments(s: ParserView)
    ensures
        follows(call_arguments(s).1, s),
    decreases s.budget(), 7nat,
{
    reveal(expression);
    reveal(more_arguments);
    reveal(call_arguments);
    lemma_advance(s);
    if s.peek.kind != TokenType::Rparen {
        lemma_expression(s.advance(), Precedence::Lowest);
        let first = expression(s.advance(), Precedence::Lowest);
        lemma_more_arguments(first.1.after(s), seq![first.0]);
        let rest = more_arguments(first.1.after(s), seq![first.0]);
        lemma_expect(rest.1, TokenType::Rparen);
    }
}

/// Parsing the later arguments moves forward.
pub proof fn lemma_more_arguments(s: ParserView, items: Seq<ExprView>)
    ensures
        follows(more_arguments(s, items).1, s),
    decreases s.budget(), 6nat,
{
    reveal(expression);
    reveal(more_arguments);
    if s.peek.kind == TokenType::Comma {
        lemma_advance(s);
        lemma_advance(s.advance());
        let at_item = s.advance().advance();
        lemma_expression(at_item, Precedence::Lowest);
        let item = expression(at_item, Precedence::Lowest);
        lemma_more_arguments(item.1.after(at_item), items.push(item.0));
    }
}

/// Parsing a conditional moves forward.
pub proof fn lemma_if_expression(s: ParserView)
    ensures
        follows(if_expression(s).1, s),
    decreases s.budget(), 4nat,
{
    reveal(expression);
    reveal(block);
    reveal(if_expression);
    lemma_expect(s, TokenType::Lparen);
    let opened = expect(s, TokenType::Lparen);
    if opened.0 {
        lemma_advance(s);
        lemma_advance(opened.1);
        lemma_expression(opened.1.advance(), Precedence::Lowest);
        let condition = expression(opened.1.advance(), Precedence::Lowest);
        lemma_expect(condition.1.after(opened.1), TokenType::Rparen);
        let closed = expect(condition.1.after(opened.1), TokenType::Rparen);
        if closed.0 {
            lemma_expect(closed.1.after(opened.1), TokenType::Lbrace);
            let braced = expect(closed.1.after(opened.1), TokenType::Lbrace);
            if braced.0 {
                lemma_block(braced.1.after(opened.1));
                let consequence = block(braced.1.after(opened.1));
                let then_end = consequence.1.after(opened.1);
                if then_end.peek.kind == TokenType::Else {
                    lemma_advance(then_end);
                    lemma_expect(then_end.advance().after(opened.1), TokenType::Lbrace);
                    let second = expect(then_end.advance().after(opened.1), TokenType::Lbrace);
                    if second.0 {
                        lemma_block(second.1.after(opened.1));
                    }
                }
            }
        }
    }
}

/// Parsing a function literal moves forward.
pub proof fn lemma_function_literal(s: ParserView)
    ensures
        follows(function_literal(s).1, s),
    decreases s.budget(), 4nat,
{
    reveal(block);
    reveal(more_parameters);
    reveal(function_literal);
    lemma_expect(s, TokenType::Lparen);
    let opened = expect(s, TokenType::Lparen);
    if opened.0 {
        lemma_advance(s);
        lemma_function_parameters(opened.1);
        let parameters = function_parameters(opened.1);
        lemma_expect(parameters.1.after(opened.1), TokenType::Lbrace);
        let braced = expect(parameters.1.after(opened.1), TokenType::Lbrace);
        if braced.0 {
            lemma_block(braced.1.after(opened.1));
        }
    }
}

/// Parsing a block moves forward.
pub proof fn lemma_block(s: ParserView)
    ensures
        follows(block(s).1, s),
    decreases s.budget(), 12nat,
{
    reveal(block_items);
    reveal(block);
    lemma_advance(s);
    lemma_block_items(s.advance(), Seq::empty());
}

/// Parsing the statements of a block moves forward.
pub proof fn lemma_block_items(s: ParserView, items: Seq<StatementView>)
    ensures
        follows(block_items(s, items).1, s),
    decreases s.budget(), 11nat,
{
    reveal(statement);
    reveal(block_items);
    if !(s.cur.kind == TokenType::Rbrace || s.cur.kind == TokenType::Eof) {
        lemma_statement(s);
        let parsed = statement(s);
        let end = parsed.1.after(s);
        lemma_advance(end);
        lemma_advance(end.note(block_error()));
        if parsed.0 is Absent {
            lemma_block_items(end.note(block_error()).advance(), items);
        } else {
            lemma_block_items(end.advance(), items.push(parsed.0));
        }
    }
}

/// Parsing a statement moves forward.
pub proof fn lemma_statement(s: ParserView)
    ensures
        follows(statement(s).1, s),
    decreases s.budget(), 10nat,
{
    reveal(let_statement);
    reveal(return_statement);
    reveal(expression_statement);
    reveal(statement);
    match s.cur.kind {
        TokenType::Let => {
            lemma_let_statement(s);
        },
        TokenType::Return => {
            lemma_return_statement(s);
        },
        _ => {
            lemma_expression_statement(s);
        },
    }
}

/// Parsing a `let` moves forward.
pub proof fn lemma_let_statement(s: ParserView)
    ensures
        follows(let_statement(s).1, s),
    decreases s.budget(), 9nat,
{
    reveal(expression);
    reveal(statement_end);
    reveal(let_statement);
    lemma_expect(s, TokenType::Ident);
    let named = expect(s, TokenType::Ident);
    if named.0 {
        lemma_expect(named.1, TokenType::Assign);
        let assigned = expect(named.1, TokenType::Assign);
        if assigned.0 {
            lemma_advance(s);
            lemma_advance(s.advance());
            lemma_advance(s.advance().advance());
            lemma_expression(assigned.1.advance(), Precedence::Lowest);
            lemma_statement_end(expression(assigned.1.advance(), Precedence::Lowest).1);
        }
    }
}

/// Parsing a `return` moves forward.
pub proof fn lemma_return_statement(s: ParserView)
    ensures
        follows(return_statement(s).1, s),
    decreases s.budget(), 9nat,
{
    reveal(expression);
    reveal(statement_end);
    reveal(return_statement);
    lemma_advance(s);
    lemma_expression(s.advance(), Precedence::Lowest);
    lemma_statement_end(expression(s.advance(), Precedence::Lowest).1);
}

/// Parsing an expression statement moves forward.
pub proof fn lemma_expression_statement(s: ParserView)
    ensures
        follows(expression_statement(s).1, s),
    decreases s.budget(), 9nat,
{
    reveal(expression);
    reveal(expression_statement);
    lemma_expression(s, Precedence::Lowest);
    lemma_advance(expression(s, Precedence::Lowest).1);
}

/// Parsing the statements of a program moves forward.
pub proof fn lemma_program_items(s: ParserView, items: Seq<StatementView>)
    ensures
        follows(program_items(s, items).1, s),
        program_items(s, items).1.cur.kind == TokenType::Eof,
    decreases s.budget(),
{
    reveal(statement);
    reveal(program_items);
    if s.cur.kind != TokenType::Eof {
        lemma_statement(s);
        let parsed = statement(s);
        let end = parsed.1.after(s);
        lemma_advance(end);
        if parsed.0 is Absent {
            lemma_program_items(end.advance(), items);
        } else {
            lemma_program_items(end.advance(), items.push(parsed.0));
        }
    }
}

/// Parsing a program moves forward, and ends at the end of the input.
pub proof fn lemma_program(s: ParserView)
    ensures
        follows(program(s).1, s),
        program(s).1.cur.kind == TokenType::Eof,
{
    reveal(program_items);
    lemma_program_items(s, Seq::empty());
}

} // verus!
