//! The parser: recursive descent for statements, precedence climbing for
//! expressions, over the tokens of a `Lexer`.

use vstd::prelude::*;
use vstd::string::*;
use crate::ast::{
    statement_views, text_views, BlockStatement, ExpressionStatement, Ident, Program,
    ReturnStatement, Statement, StatementView,
};
use crate::grammar::{lemma_advance, peek_error, ParserView, Precedence};
use crate::lexer::Lexer;
use crate::token::{Token, TokenType};

verus! {

/// A parser over one source text.
#[derive(Debug)]
pub struct Parser {
    l: Lexer,
    errors: Vec<String>,
    cur_token: Token,
    peek_token: Token,
}

impl View for Parser {
    type V = ParserView;

    closed spec fn view(&self) -> ParserView {
        self.state()
    }
}

impl Parser {
    #[verifier::opaque]
    spec fn state(&self) -> ParserView {
        ParserView {
            source: self.l.source(),
            pos: self.l.position as int,
            cur: self.cur_token@,
            peek: self.peek_token@,
            errors: text_views(self.errors@),
        }
    }

    /// The tokenizer inside is well-formed.
    pub closed spec fn wf(&self) -> bool {
        self.l.wf()
    }

    /// Whether the parser is well-formed. A parser made by `new` and moved
    /// by its methods always is.
    pub fn is_well_formed(&self) -> (r: bool)
        ensures
            r == self.wf(),
    {
        self.l.is_well_formed()
    }

    /// A parser on the tokens of `lexer`, with the first two tokens loaded.
    pub fn new(lexer: Lexer) -> (p: Parser)
        requires
            lexer.wf(),
        ensures
            p.wf(),
            p@ == ParserView::start(lexer.source(), lexer.position as int),
    {
        reveal(Parser::state);
        let mut p = Parser {
            l: lexer,
            errors: Vec::new(),
            cur_token: Token::default(),
            peek_token: Token::default(),
        };
        p.next_token();
        p.next_token();
        assert(p@.errors =~= Seq::<Seq<char>>::empty());
        p
    }

    /// Takes one token: the next token becomes the current one.
    pub fn next_token(&mut self)
        requires
            old(self).wf(),
        ensures
            final(self).wf(),
            final(self)@ == old(self)@.advance(),
    {
        reveal(Parser::state);
        self.cur_token = self.peek_token.clone();
        self.peek_token = self.l.next_token();
    }

    /// Whether the current token is a `token_type`.
    pub fn cur_token_is(&self, token_type: TokenType) -> (r: bool)
        ensures
            r == (self@.cur.kind == token_type),
    {
        reveal(Parser::state);
        self.cur_token.token_type == token_type
    }

    /// Whether the next token is a `token_type`.
    pub fn peek_token_is(&self, token_type: TokenType) -> (r: bool)
        ensures
            r == (self@.peek.kind == token_type),
    {
        reveal(Parser::state);
        self.peek_token.token_type == token_type
    }

    pub(crate) fn cur_kind(&self) -> (kind: TokenType)
        ensures
            kind == self@.cur.kind,
    {
        reveal(Parser::state);
        self.cur_token.token_type
    }

    pub(crate) fn cur_literal(&self) -> (text: String)
        ensures
            text@ == self@.cur.literal,
    {
        reveal(Parser::state);
        self.cur_token.literal.clone()
    }

    pub(crate) fn peek_kind(&self) -> (kind: TokenType)
        ensures
            kind == self@.peek.kind,
    {
        reveal(Parser::state);
        self.peek_token.token_type
    }

    /// Takes the next token if it is a `token_type`; records a diagnostic
    /// and takes nothing if it is not.
    pub fn expect_peek(&mut self, token_type: TokenType) -> (r: bool)
        requires
            old(self).wf(),
        ensures
            final(self).wf(),
            (r, final(self)@) == crate::grammar::expect(old(self)@, token_type),
    {
        if self.peek_token_is(token_type) {
            self.next_token();
            true
        } else {
            self.peek_errors(token_type);
            false
        }
    }

    /// The precedence of the current token as an operator.
    pub fn cur_precedence(&self) -> (p: Precedence)
        ensures
            p == Precedence::of_kind(self@.cur.kind),
    {
        reveal(Parser::state);
        Precedence::of(self.cur_token.token_type)
    }

    /// The precedence of the next token as an operator.
    pub fn peek_precedence(&self) -> (p: Precedence)
        ensures
            p == Precedence::of_kind(self@.peek.kind),
    {
        reveal(Parser::state);
        Precedence::of(self.peek_token.token_type)
    }

    /// The diagnostics recorded so far, in order.
    pub fn errors(&self) -> (list: Vec<String>)
        ensures
            text_views(list@) == self@.errors,
    {
        reveal(Parser::state);
        let mut list: Vec<String> = Vec::new();
        let mut i: usize = 0;
        while i < self.errors.len()
            invariant
                i <= self.errors@.len(),
                list@.len() == i,
                forall|k: int| 0 <= k < i ==> (#[trigger] list@[k])@ == self.errors@[k]@,
            decreases self.errors@.len() - i,
        {
            list.push(self.errors[i].clone());
            i += 1;
        }
        list
    }

    /// Records that the next token is not the `token_type` that was expected.
    pub fn peek_errors(&mut self, token_type: TokenType)
        requires
            old(self).wf(),
        ensures
            final(self).wf(),
            final(self)@ == old(self)@.note(peek_error(token_type, old(self)@.peek.kind)),
    {
        reveal(Parser::state);
        let mut msg = "expected next token to be ".to_owned();
        msg.append(token_type.name());
        msg.append(", got ");
        msg.append(self.peek_kind().name());
        msg.append(" instead");
        self.record(msg);
    }

    pub(crate) fn record(&mut self, message: String)
        requires
            old(self).wf(),
        ensures
            final(self).wf(),
            final(self)@ == old(self)@.note(message@),
    {
        reveal(Parser::state);
        self.errors.push(message);
        assert(text_views(self.errors@) =~= text_views(old(self).errors@).push(message@));
    }
}

/// The view of what the statement parsers return.
pub open spec fn outcome_view(outcome: Option<Statement>) -> Option<StatementView> {
    match outcome {
        Some(statement) => Some(statement@),
        None => None,
    }
}

impl Parser {
    /// Parses a whole program: statements until the current token is the
    /// end of the input. The result is always `Some`; what went wrong is
    /// in `errors`.
    pub fn parse_program(&mut self) -> (program: Option<Program>)
        requires
            old(self).wf(),
        ensures
            final(self).wf(),
            program is Some,
            (program->0@, final(self)@) == crate::grammar::program(old(self)@),
            final(self)@.cur.kind == TokenType::Eof,
    {
        proof {
            reveal(crate::grammar::program_items);
            reveal(crate::grammar::statement);
        }
        let mut statements: Vec<Statement> = Vec::new();
        assert(statement_views(statements@) =~= Seq::<StatementView>::empty());
        while !self.cur_token_is(TokenType::Eof)
            invariant
                self.wf(),
                crate::grammar::program(old(self)@) == crate::grammar::program_items(
                    self@,
                    statement_views(statements@),
                ),
            decreases self@.budget(),
        {
            proof {
                reveal(crate::grammar::program_items);
                reveal(crate::grammar::statement);
            }
            let ghost before = statement_views(statements@);
            let stmt = self.parse_statement();
            match stmt {
                Statement::Absent => {},
                _ => {
                    statements.push(stmt);
                    assert(statement_views(statements@) =~= before.push(stmt@));
                },
            }
            proof {
                lemma_advance(self@);
            }
            self.next_token();
        }
        Some(Program { statements })
    }

    /// Parses one statement: a `let`, a `return`, or an expression.
    pub fn parse_statement(&mut self) -> (statement: Statement)
        requires
            old(self).wf(),
        ensures
            final(self).wf(),
            (statement@, final(self)@) == crate::grammar::statement(old(self)@),
            final(self)@.budget() <= old(self)@.budget(),
        decreases old(self)@.budget(), 10nat,
    {
        proof {
            reveal(crate::grammar::statement);
            reveal(crate::grammar::let_statement);
            reveal(crate::grammar::return_statement);
            reveal(crate::grammar::expression_statement);
        }
        let parsed = match self.cur_kind() {
            TokenType::Let => self.parse_let_statement(),
            TokenType::Return => self.parse_return_statement(),
            _ => self.parse_expression_statement(),
        };
        match parsed {
            Some(statement) => statement,
            None => Statement::Absent,
        }
    }

    /// Takes tokens until the current one is a `;` or the end of the input.
    fn skip_statement(&mut self)
        requires
            old(self).wf(),
        ensures
            final(self).wf(),
            final(self)@ == crate::grammar::statement_end(old(self)@),
            final(self)@.budget() <= old(self)@.budget(),
    {
        proof {
            reveal(crate::grammar::statement_end);
        }
        while !self.cur_token_is(TokenType::Semicolon) && !self.cur_token_is(TokenType::Eof)
            invariant
                self.wf(),
                self@.budget() <= old(self)@.budget(),
                crate::grammar::statement_end(self@) == crate::grammar::statement_end(
                    old(self)@,
                ),
            decreases self@.budget(),
        {
            proof {
                reveal(crate::grammar::statement_end);
                lemma_advance(self@);
            }
            self.next_token();
        }
    }

    /// Parses `let`, a name, `=` and an expression, then takes tokens
    /// through the end of the statement. `None`, with a diagnostic, where
    /// the name or the `=` is missing.
    pub fn parse_let_statement(&mut self) -> (outcome: Option<Statement>)
        requires
            old(self).wf(),
        ensures
            final(self).wf(),
            (outcome_view(outcome), final(self)@) == crate::grammar::let_statement(
                old(self)@,
            ),
            final(self)@.budget() <= old(self)@.budget(),
        decreases old(self)@.budget(), 9nat,
    {
        proof {
            reveal(crate::grammar::let_statement);
            reveal(crate::grammar::expression);
            reveal(crate::grammar::statement_end);
            lemma_advance(self@);
        }
        if !self.expect_peek(TokenType::Ident) {
            return None;
        }
        let name = Ident(self.cur_literal());
        proof {
            lemma_advance(self@);
        }
        if !self.expect_peek(TokenType::Assign) {
            return None;
        }
        proof {
            lemma_advance(self@);
        }
        self.next_token();
        let value = self.parse_expression(Precedence::Lowest);
        self.skip_statement();
        Some(Statement::Let { name, value })
    }

    /// Parses `return` and an expression, then takes tokens through the end
    /// of the statement.
    pub fn parse_return_statement(&mut self) -> (outcome: Option<Statement>)
        requires
            old(self).wf(),
        ensures
            final(self).wf(),
            (outcome_view(outcome), final(self)@) == crate::grammar::return_statement(
                old(self)@,
            ),
            final(self)@.budget() <= old(self)@.budget(),
        decreases old(self)@.budget(), 9nat,
    {
        proof {
            reveal(crate::grammar::return_statement);
            reveal(crate::grammar::expression);
            reveal(crate::grammar::statement_end);
            lemma_advance(self@);
        }
        self.next_token();
        let value = self.parse_expression(Precedence::Lowest);
        self.skip_statement();
        Some(Statement::Return(ReturnStatement { return_value: value }))
    }

    /// Parses an expression as a statement; a `;` after it is taken.
    pub fn parse_expression_statement(&mut self) -> (outcome: Option<Statement>)
        requires
            old(self).wf(),
        ensures
            final(self).wf(),
            (outcome_view(outcome), final(self)@) == crate::grammar::expression_statement(
                old(self)@,
            ),
            final(self)@.budget() <= old(self)@.budget(),
        decreases old(self)@.budget(), 9nat,
    {
        proof {
            reveal(crate::grammar::expression_statement);
            reveal(crate::grammar::expression);
        }
        let expression = self.parse_expression(Precedence::Lowest);
        if self.peek_token_is(TokenType::Semicolon) {
            proof {
                lemma_advance(self@);
            }
            self.next_token();
        }
        Some(Statement::Expression(ExpressionStatement { expression }))
    }

    /// Parses the block whose `{` is the current token, up to its `}` or
    /// the end of the input.
    pub fn parse_block_statement(&mut self) -> (block: Statement)
        requires
            old(self).wf(),
        ensures
            final(self).wf(),
            (block@, final(self)@) == crate::grammar::block(old(self)@),
            final(self)@.budget() <= old(self)@.budget(),
        decreases old(self)@.budget(), 12nat,
    {
        proof {
            reveal(crate::grammar::block);
            reveal(crate::grammar::block_items);
            reveal(crate::grammar::statement);
        }
        let mut statements: Vec<Statement> = Vec::new();
        proof {
            lemma_advance(self@);
        }
        self.next_token();
        let ghost at_first = self@;
        assert(statement_views(statements@) =~= Seq::<StatementView>::empty());
        while !self.cur_token_is(TokenType::Rbrace) && !self.cur_token_is(TokenType::Eof)
            invariant
                self.wf(),
                self@.budget() <= old(self)@.budget(),
                crate::grammar::block_items(at_first, Seq::empty()) == crate::grammar::block_items(
                    self@,
                    statement_views(statements@),
                ),
            decreases self@.budget(),
        {
            proof {
                reveal(crate::grammar::block);
                reveal(crate::grammar::block_items);
                reveal(crate::grammar::statement);
            }
            let ghost before = statement_views(statements@);
            let stmt = self.parse_statement();
            match stmt {
                Statement::Absent => {
                    self.record("failed to parse statement inside block".to_owned());
                },
                _ => {
                    statements.push(stmt);
                    assert(statement_views(statements@) =~= before.push(stmt@));
                },
            }
            proof {
                lemma_advance(self@);
            }
            self.next_token();
        }
        Statement::Block(BlockStatement { statements })
    }
}

} // verus!
