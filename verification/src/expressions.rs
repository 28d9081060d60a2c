//! Expressions by precedence climbing: a prefix term, then the operators
//! that bind tighter than the caller's bound.

use vstd::prelude::*;
use crate::ast::{expr_views, Expr, ExprView, Ident};
use crate::grammar::{lemma_advance, Precedence};
use crate::parser::Parser;
use crate::text::parse_numeral;
use crate::token::TokenType;

verus! {

/// The view of what `parse_call_arguments` returns.
pub open spec fn arguments_view(list: Option<Vec<Expr>>) -> Option<Seq<ExprView>> {
    match list {
        Some(items) => Some(expr_views(items@)),
        None => None,
    }
}

impl Parser {
    /// Parses one expression whose first token is the current one, taking
    /// infix and call operators while they bind tighter than `prec`.
    pub fn parse_expression(&mut self, prec: Precedence) -> (e: Expr)
        requires
            old(self).wf(),
        ensures
            final(self).wf(),
            (e@, final(self)@) == crate::grammar::expression(old(self)@, prec),
            final(self)@.budget() <= old(self)@.budget(),
        decreases old(self)@.budget(), 5nat,
    {
        proof {
            reveal(crate::grammar::expression);
            reveal(crate::grammar::fold_operators);
            reveal(crate::grammar::if_expression);
            reveal(crate::grammar::function_literal);
            reveal(crate::grammar::call_expression);
            reveal(crate::grammar::infix_expression);
        }
        let mut left = match self.cur_kind() {
            TokenType::Ident => Expr::Ident(Ident(self.cur_literal())),
            TokenType::Int => match parse_numeral(self.cur_literal().as_str()) {
                Some(i) => Expr::Integer(i),
                None => Expr::Integer(0),
            },
            TokenType::Bang | TokenType::Minus | TokenType::Plus => {
                let op = self.cur_kind();
                proof {
                    lemma_advance(self@);
                }
                self.next_token();
                let right = self.parse_expression(Precedence::Prefix);
                Expr::Prefix { op, right: Box::new(right) }
            },
            TokenType::Lparen => {
                proof {
                    lemma_advance(self@);
                }
                self.next_token();
                let expr = self.parse_expression(Precedence::Lowest);
                proof {
                    lemma_advance(self@);
                }
                if !self.expect_peek(TokenType::Rparen) {
                    return Expr::Absent;
                }
                expr
            },
            TokenType::True | TokenType::False => self.parse_boolean(),
            TokenType::If => self.parse_if_expression(),
            TokenType::Function => self.parse_function(),
            _ => Expr::Absent,
        };
        let ghost first = left@;
        let ghost at_first = self@;
        while prec.level() < self.peek_precedence().level()
            invariant
                self.wf(),
                self@.budget() <= old(self)@.budget(),
                crate::grammar::fold_operators(at_first, first, prec)
                    == crate::grammar::fold_operators(self@, left@, prec),
            decreases self@.budget(),
        {
            proof {
                reveal(crate::grammar::expression);
                reveal(crate::grammar::fold_operators);
                reveal(crate::grammar::if_expression);
                reveal(crate::grammar::function_literal);
                reveal(crate::grammar::call_expression);
                reveal(crate::grammar::infix_expression);
                lemma_advance(self@);
            }
            self.next_token();
            if self.cur_token_is(TokenType::Lparen) {
                left = self.parse_call_expression(left);
            } else {
                left = self.parse_infix_expression(left);
            }
        }
        left
    }

    /// Parses the right operand of the infix operator that is the current
    /// token, at the operator's own precedence.
    pub fn parse_infix_expression(&mut self, left: Expr) -> (e: Expr)
        requires
            old(self).wf(),
        ensures
            final(self).wf(),
            (e@, final(self)@) == crate::grammar::infix_expression(old(self)@, left@),
            final(self)@.budget() <= old(self)@.budget(),
        decreases old(self)@.budget(), 8nat,
    {
        proof {
            reveal(crate::grammar::infix_expression);
            reveal(crate::grammar::expression);
        }
        let precedence = self.cur_precedence();
        let operator = self.cur_kind();
        proof {
            lemma_advance(self@);
        }
        self.next_token();
        let right = self.parse_expression(precedence);
        Expr::Infix { left: Box::new(left), op: operator, right: Box::new(right) }
    }

    /// Parses a comma-separated list of expressions up to the closing `)`;
    /// `None`, with a diagnostic, where that `)` is missing.
    pub fn parse_call_arguments(&mut self) -> (list: Option<Vec<Expr>>)
        requires
            old(self).wf(),
        ensures
            final(self).wf(),
            (arguments_view(list), final(self)@) == crate::grammar::call_arguments(
                old(self)@,
            ),
            final(self)@.budget() <= old(self)@.budget(),
        decreases old(self)@.budget(), 7nat,
    {
        proof {
            reveal(crate::grammar::call_arguments);
            reveal(crate::grammar::more_arguments);
            reveal(crate::grammar::expression);
        }
        let mut args: Vec<Expr> = Vec::new();
        proof {
            lemma_advance(self@);
        }
        if self.peek_token_is(TokenType::Rparen) {
            self.next_token();
            return Some(args);
        }
        self.next_token();
        let first = self.parse_expression(Precedence::Lowest);
        let ghost first_view = first@;
        args.push(first);
        assert(expr_views(args@) =~= seq![first_view]);
        let ghost at_first = self@;
        while self.peek_token_is(TokenType::Comma)
            invariant
                self.wf(),
                self@.budget() <= old(self)@.budget(),
                crate::grammar::more_arguments(at_first, seq![first_view])
                    == crate::grammar::more_arguments(self@, expr_views(args@)),
            decreases self@.budget(),
        {
            proof {
                reveal(crate::grammar::call_arguments);
                reveal(crate::grammar::more_arguments);
                reveal(crate::grammar::expression);
            }
            let ghost before = expr_views(args@);
            proof {
                lemma_advance(self@);
                lemma_advance(self@.advance());
            }
            self.next_token();
            self.next_token();
            let item = self.parse_expression(Precedence::Lowest);
            let ghost item_view = item@;
            args.push(item);
            assert(expr_views(args@) =~= before.push(item_view));
        }
        proof {
            lemma_advance(self@);
        }
        if !self.expect_peek(TokenType::Rparen) {
            return None;
        }
        Some(args)
    }
}

} // verus!
