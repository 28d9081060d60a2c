//! The compound expressions: calls, conditionals and function literals.

use vstd::prelude::*;
use crate::ast::{ident_views, Expr, ExprView, Function, Ident, Statement, StatementView};
use crate::grammar::{lemma_advance, Precedence};
use crate::parser::Parser;
use crate::token::TokenType;

verus! {

impl Parser {
    /// Parses the arguments of a call whose `(` is the current token and
    /// whose callee is `func`. Where the closing `)` is missing the result
    /// is the placeholder.
    pub fn parse_call_expression(&mut self, func: Expr) -> (e: Expr)
        requires
            old(self).wf(),
        ensures
            final(self).wf(),
            (e@, final(self)@) == crate::grammar::call_expression(old(self)@, func@),
            final(self)@.budget() <= old(self)@.budget(),
        decreases old(self)@.budget(), 8nat,
    {
        proof {
            reveal(crate::grammar::call_expression);
            reveal(crate::grammar::call_arguments);
        }
        match self.parse_call_arguments() {
            Some(arguments) => Expr::Call { function: Box::new(func), arguments },
            None => Expr::Absent,
        }
    }

    /// The boolean literal that the current token stands for: `true` for
    /// the keyword `true`, `false` for anything else.
    pub fn parse_boolean(&mut self) -> (e: Expr)
        ensures
            *final(self) == *old(self),
            e@ == ExprView::Boolean(old(self)@.cur.kind == TokenType::True),
    {
        Expr::Boolean(self.cur_token_is(TokenType::True))
    }

    /// Parses a conditional whose `if` is the current token. Where a
    /// parenthesis or brace is missing, a diagnostic is recorded and the
    /// result is the placeholder.
    pub fn parse_if_expression(&mut self) -> (e: Expr)
        requires
            old(self).wf(),
        ensures
            final(self).wf(),
            (e@, final(self)@) == crate::grammar::if_expression(old(self)@),
            final(self)@.budget() <= old(self)@.budget(),
        decreases old(self)@.budget(), 4nat,
    {
        proof {
            reveal(crate::grammar::if_expression);
            reveal(crate::grammar::expression);
            reveal(crate::grammar::block);
            lemma_advance(self@);
        }
        if !self.expect_peek(TokenType::Lparen) {
            return Expr::Absent;
        }
        proof {
            lemma_advance(self@);
        }
        self.next_token();
        let condition = self.parse_expression(Precedence::Lowest);
        proof {
            lemma_advance(self@);
        }
        if !self.expect_peek(TokenType::Rparen) {
            return Expr::Absent;
        }
        proof {
            lemma_advance(self@);
        }
        if !self.expect_peek(TokenType::Lbrace) {
            return Expr::Absent;
        }
        let consequence = self.parse_block_statement();
        let alternative = if self.peek_token_is(TokenType::Else) {
            proof {
                lemma_advance(self@);
            }
            self.next_token();
            proof {
                lemma_advance(self@);
            }
            if !self.expect_peek(TokenType::Lbrace) {
                return Expr::Absent;
            }
            self.parse_block_statement()
        } else {
            let absent = Statement::Absent;
            assert(absent@ == StatementView::Absent);
            absent
        };
        Expr::IfExpression {
            condition: Box::new(condition),
            consequence: Box::new(consequence),
            alternative: Box::new(alternative),
        }
    }

    /// Parses a function literal whose `fn` is the current token. Where the
    /// `(` or the `{` is missing, a diagnostic is recorded and the result
    /// is the placeholder.
    pub fn parse_function(&mut self) -> (e: Expr)
        requires
            old(self).wf(),
        ensures
            final(self).wf(),
            (e@, final(self)@) == crate::grammar::function_literal(old(self)@),
            final(self)@.budget() <= old(self)@.budget(),
        decreases old(self)@.budget(), 4nat,
    {
        proof {
            reveal(crate::grammar::function_literal);
            reveal(crate::grammar::block);
            lemma_advance(self@);
        }
        if !self.expect_peek(TokenType::Lparen) {
            return Expr::Absent;
        }
        let parameters = self.parse_function_parameters();
        proof {
            lemma_advance(self@);
        }
        if !self.expect_peek(TokenType::Lbrace) {
            return Expr::Absent;
        }
        let body = self.parse_block_statement();
        Expr::Fn(Function { parameters, body: Box::new(body) })
    }

    /// Parses the parameter list of a function literal whose `(` is the
    /// current token. Where the closing `)` is missing, a diagnostic is
    /// recorded and the names read so far are returned.
    pub fn parse_function_parameters(&mut self) -> (idents: Vec<Ident>)
        requires
            old(self).wf(),
        ensures
            final(self).wf(),
            (ident_views(idents@), final(self)@) == crate::grammar::function_parameters(
                old(self)@,
            ),
            final(self)@.budget() <= old(self)@.budget(),
    {
        proof {
            reveal(crate::grammar::more_parameters);
        }
        let mut idents: Vec<Ident> = Vec::new();
        proof {
            lemma_advance(self@);
        }
        if self.peek_token_is(TokenType::Rparen) {
            self.next_token();
            return idents;
        }
        self.next_token();
        let ghost at_first = self@;
        idents.push(Ident(self.cur_literal()));
        assert(ident_views(idents@) =~= seq![at_first.cur.literal]);
        while self.peek_token_is(TokenType::Comma)
            invariant
                self.wf(),
                self@.budget() <= old(self)@.budget(),
                crate::grammar::more_parameters(at_first, seq![at_first.cur.literal])
                    == crate::grammar::more_parameters(self@, ident_views(idents@)),
            decreases self@.budget(),
        {
            proof {
                reveal(crate::grammar::more_parameters);
            }
            let ghost before = ident_views(idents@);
            proof {
                lemma_advance(self@);
                lemma_advance(self@.advance());
            }
            self.next_token();
            self.next_token();
            idents.push(Ident(self.cur_literal()));
            assert(ident_views(idents@) =~= before.push(self@.cur.literal));
        }
        proof {
            lemma_advance(self@);
        }
        self.expect_peek(TokenType::Rparen);
        idents
    }
}

} // verus!
