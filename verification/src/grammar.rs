//! The grammar as mathematics: what the parser makes of a token stream,
//! stated over the parser's state as a plain value.

use vstd::prelude::*;
use crate::ast::{ExprView, StatementView};
use crate::lexer::{lemma_span_end, scan, span_end, ByteClass};
use crate::text::{is_numeral, numeral_value};
use crate::token::{TokenType, TokenView};

verus! {

/// How tightly an operator binds, from loosest to tightest.
#[derive(Debug, Clone, Copy, PartialEq, Eq, PartialOrd, Ord, Structural)]
pub enum Precedence {
    Lowest,
    Equals,
    LessGreater,
    Sum,
    Product,
    Prefix,
    Call,
    Highest,
}

impl Default for Precedence {
    fn default() -> (p: Precedence)
        ensures
            p == Precedence::Lowest,
    {
        Precedence::Lowest
    }
}

impl Precedence {
    /// The position of the level in the order, from 0 for `Lowest`.
    pub open spec fn rank(self) -> nat {
        match self {
            Precedence::Lowest => 0,
            Precedence::Equals => 1,
            Precedence::LessGreater => 2,
            Precedence::Sum => 3,
            Precedence::Product => 4,
            Precedence::Prefix => 5,
            Precedence::Call => 6,
            Precedence::Highest => 7,
        }
    }

    /// The level at which a token binds as an infix or call operator;
    /// `Lowest` for every other token.
    pub open spec fn of_kind(kind: TokenType) -> Precedence {
        match kind {
            TokenType::Eq | TokenType::NotEq => Precedence::Equals,
            TokenType::Lt | TokenType::Gt | TokenType::Le | TokenType::Ge => Precedence::LessGreater,
            TokenType::Plus | TokenType::Minus => Precedence::Sum,
            TokenType::Slash | TokenType::Asterisk => Precedence::Product,
            TokenType::Lparen => Precedence::Call,
            _ => Precedence::Lowest,
        }
    }

    /// The position of the level in the order.
    pub fn level(&self) -> (n: u8)
        ensures
            n == self.rank(),
    {
        match self {
            Precedence::Lowest => 0,
            Precedence::Equals => 1,
            Precedence::LessGreater => 2,
            Precedence::Sum => 3,
            Precedence::Product => 4,
            Precedence::Prefix => 5,
            Precedence::Call => 6,
            Precedence::Highest => 7,
        }
    }

    /// The level at which `token_type` binds as an infix or call operator.
    pub fn of(token_type: TokenType) -> (p: Precedence)
        ensures
            p == Precedence::of_kind(token_type),
    {
        match token_type {
            TokenType::Eq | TokenType::NotEq => Precedence::Equals,
            TokenType::Lt | TokenType::Gt | TokenType::Le | TokenType::Ge => Precedence::LessGreater,
            TokenType::Plus | TokenType::Minus => Precedence::Sum,
            TokenType::Slash | TokenType::Asterisk => Precedence::Product,
            TokenType::Lparen => Precedence::Call,
            _ => Precedence::Lowest,
        }
    }
}

/// The parser's state as a value: the source, the tokenizer's cursor in
/// it, the current token, the one after it, and the diagnostics so far.
pub struct ParserView {
    pub source: Seq<u8>,
    pub pos: int,
    pub cur: TokenView,
    pub peek: TokenView,
    pub errors: Seq<Seq<char>>,
}

/// The diagnostic for a token that is not the expected one.
pub open spec fn peek_error(expected: TokenType, got: TokenType) -> Seq<char> {
    "expected next token to be "@ + expected.name_text() + ", got "@ + got.name_text()
        + " instead"@
}

/// The diagnostic for a statement inside a block that came to nothing.
pub open spec fn block_error() -> Seq<char> {
    "failed to parse statement inside block"@
}

/// The number an integer literal stands for; 0 where the text is no
/// numeral or the number does not fit in 64 bits.
pub open spec fn integer_of(literal: Seq<char>) -> i64 {
    if is_numeral(literal) && numeral_value(literal) <= i64::MAX {
        numeral_value(literal) as i64
    } else {
        0
    }
}

impl ParserView {
    /// The state of a parser that starts on `source` with the tokenizer's
    /// cursor at `pos`: the first two tokens are loaded.
    pub open spec fn start(source: Seq<u8>, pos: int) -> ParserView {
        let first = scan(source, pos);
        let second = scan(source, first.end);
        ParserView {
            source,
            pos: second.end,
            cur: first.token,
            peek: second.token,
            errors: Seq::empty(),
        }
    }

    /// A bound on the work left: it falls with every token taken while any
    /// is left to take.
    pub open spec fn budget(self) -> nat {
        let rest: nat = if self.pos < self.source.len() {
            (self.source.len() - self.pos) as nat
        } else {
            0
        };
        let ahead: nat = if self.peek.kind != TokenType::Eof {
            2
        } else {
            0
        };
        let here: nat = if self.cur.kind != TokenType::Eof {
            1
        } else {
            0
        };
        4 * rest + ahead + here
    }

    /// The state after one token is taken: the next token becomes the
    /// current one and the tokenizer supplies a new next token.
    pub open spec fn advance(self) -> ParserView {
        let next = scan(self.source, self.pos);
        ParserView {
            source: self.source,
            pos: next.end,
            cur: self.peek,
            peek: next.token,
            errors: self.errors,
        }
    }

    /// The state with one more diagnostic.
    pub open spec fn note(self, message: Seq<char>) -> ParserView {
        ParserView { errors: self.errors.push(message), ..self }
    }

    /// The state after a part was parsed that started in `before`. Parsing
    /// never gives input back, so this is the state itself, as the module
    /// `descent` shows of every part; the bound is written out because the
    /// definitions below rest on it to end.
    pub open spec fn after(self, before: ParserView) -> ParserView {
        if self.budget() <= before.budget() {
            self
        } else {
            before
        }
    }
}

/// Taking a token never raises the budget, and lowers it while it is
/// positive.
pub proof fn lemma_advance(s: ParserView)
    ensures
        s.advance().budget() <= s.budget(),
        s.budget() > 0 ==> s.advance().budget() < s.budget(),
        s.advance().source == s.source,
        s.advance().errors == s.errors,
        s.advance().cur == s.peek,
        0 <= s.pos <= s.source.len() ==> s.pos <= s.advance().pos <= s.source.len(),
{
    reveal(scan);
    let bytes = s.source;
    let p = span_end(bytes, s.pos, ByteClass::Blank);
    if 0 <= s.pos <= bytes.len() {
        lemma_span_end(bytes, s.pos, ByteClass::Blank);
        lemma_span_end(bytes, p, ByteClass::Letter);
        lemma_span_end(bytes, p, ByteClass::Digit);
    }
}

/// Requires the next token to be a `kind`: if it is, it is taken; if not,
/// a diagnostic is recorded and nothing is taken.
pub open spec fn expect(s: ParserView, kind: TokenType) -> (bool, ParserView) {
    if s.peek.kind == kind {
        (true, s.advance())
    } else {
        (false, s.note(peek_error(kind, s.peek.kind)))
    }
}

/// Takes tokens until the current one ends a statement: a `;`, or the end
/// of the input.
#[verifier::opaque]
pub open spec fn statement_end(s: ParserView) -> ParserView
    decreases s.budget(),
{
    if s.cur.kind == TokenType::Semicolon || s.cur.kind == TokenType::Eof {
        s
    } else {
        proof {
            lemma_advance(s);
        }
        statement_end(s.advance())
    }
}

/// Parses one expression whose first token is the current one, taking
/// infix and call operators while they bind tighter than `prec`. The
/// current token is then the last token of the expression.
#[verifier::opaque]
pub open spec fn expression(s: ParserView, prec: Precedence) -> (ExprView, ParserView)
    decreases s.budget(), 5nat,
{
    match s.cur.kind {
        TokenType::Ident => fold_operators(s, ExprView::Ident(s.cur.literal), prec),
        TokenType::Int => fold_operators(s, ExprView::Integer(integer_of(s.cur.literal)), prec),
        TokenType::True => fold_operators(s, ExprView::Boolean(true), prec),
        TokenType::False => fold_operators(s, ExprView::Boolean(false), prec),
        TokenType::Bang | TokenType::Minus | TokenType::Plus => {
            proof {
                lemma_advance(s);
            }
            let operand = expression(s.advance(), Precedence::Prefix);
            fold_operators(
                operand.1.after(s),
                ExprView::Prefix { op: s.cur.kind, right: Box::new(operand.0) },
                prec,
            )
        },
        TokenType::Lparen => {
            proof {
                lemma_advance(s);
            }
            let inner = expression(s.advance(), Precedence::Lowest);
            let closed = expect(inner.1.after(s), TokenType::Rparen);
            if closed.0 {
                fold_operators(closed.1.after(s), inner.0, prec)
            } else {
                (ExprView::Absent, closed.1)
            }
        },
        TokenType::If => {
            let parsed = if_expression(s);
            fold_operators(parsed.1.after(s), parsed.0, prec)
        },
        TokenType::Function => {
            let parsed = function_literal(s);
            fold_operators(parsed.1.after(s), parsed.0, prec)
        },
        _ => fold_operators(s, ExprView::Absent, prec),
    }
}

/// Extends `left` by the operators that follow it: while the next token
/// binds tighter than `prec` it is taken, as a call if it is `(` and as an
/// infix operator otherwise, and the result is the new left operand.
/// Operators of equal precedence therefore group to the left.
#[verifier::opaque]
pub open spec fn fold_operators(s: ParserView, left: ExprView, prec: Precedence) -> (
    ExprView,
    ParserView,
)
    decreases s.budget(), 3nat,
{
    if prec.rank() < Precedence::of_kind(s.peek.kind).rank() {
        proof {
            lemma_advance(s);
        }
        let at_operator = s.advance();
        let extended = if at_operator.cur.kind == TokenType::Lparen {
            call_expression(at_operator, left)
        } else {
            infix_expression(at_operator, left)
        };
        fold_operators(extended.1.after(at_operator), extended.0, prec)
    } else {
        (left, s)
    }
}

/// Parses the right operand of the infix operator that is the current
/// token, at the operator's own precedence.
#[verifier::opaque]
pub open spec fn infix_expression(s: ParserView, left: ExprView) -> (ExprView, ParserView)
    decreases s.budget(), 8nat,
{
    proof {
        lemma_advance(s);
    }
    let right = expression(s.advance(), Precedence::of_kind(s.cur.kind));
    (ExprView::Infix { left: Box::new(left), op: s.cur.kind, right: Box::new(right.0) }, right.1)
}

/// Parses the arguments of a call whose `(` is the current token. Where
/// the closing `)` is missing the result is the placeholder.
#[verifier::opaque]
pub open spec fn call_expression(s: ParserView, function: ExprView) -> (
    ExprView,
    ParserView,
)
    decreases s.budget(), 8nat,
{
    let arguments = call_arguments(s);
    match arguments.0 {
        Some(items) => (
            ExprView::Call { function: Box::new(function), arguments: items },
            arguments.1,
        ),
        None => (ExprView::Absent, arguments.1),
    }
}

/// Parses a comma-separated list of expressions up to the closing `)`;
/// `None` where that `)` is missing.
#[verifier::opaque]
pub open spec fn call_arguments(s: ParserView) -> (Option<Seq<ExprView>>, ParserView)
    decreases s.budget(), 7nat,
{
    if s.peek.kind == TokenType::Rparen {
        (Some(Seq::empty()), s.advance())
    } else {
        proof {
            lemma_advance(s);
        }
        let first = expression(s.advance(), Precedence::Lowest);
        let rest = more_arguments(first.1.after(s), seq![first.0]);
        let closed = expect(rest.1, TokenType::Rparen);
        if closed.0 {
            (Some(rest.0), closed.1)
        } else {
            (None, closed.1)
        }
    }
}

/// Parses the arguments that follow the first: each is a `,` and an
/// expression.
#[verifier::opaque]
pub open spec fn more_arguments(s: ParserView, items: Seq<ExprView>) -> (
    Seq<ExprView>,
    ParserView,
)
    decreases s.budget(), 6nat,
{
    if s.peek.kind == TokenType::Comma {
        proof {
            lemma_advance(s);
            lemma_advance(s.advance());
        }
        let at_item = s.advance().advance();
        let item = expression(at_item, Precedence::Lowest);
        more_arguments(item.1.after(at_item), items.push(item.0))
    } else {
        (items, s)
    }
}

/// Parses a conditional whose `if` is the current token: a condition in
/// parentheses, a block, and after `else` a second block. Where a
/// parenthesis or brace is missing the result is the placeholder.
#[verifier::opaque]
pub open spec fn if_expression(s: ParserView) -> (ExprView, ParserView)
    decreases s.budget(), 4nat,
{
    let opened = expect(s, TokenType::Lparen);
    if !opened.0 {
        (ExprView::Absent, opened.1)
    } else {
        proof {
            lemma_advance(s);
            lemma_advance(s.advance());
        }
        let condition = expression(opened.1.advance(), Precedence::Lowest);
        let closed = expect(condition.1.after(opened.1), TokenType::Rparen);
        if !closed.0 {
            (ExprView::Absent, closed.1)
        } else {
            let braced = expect(closed.1.after(opened.1), TokenType::Lbrace);
            if !braced.0 {
                (ExprView::Absent, braced.1)
            } else {
                let consequence = block(braced.1.after(opened.1));
                let then_end = consequence.1.after(opened.1);
                if then_end.peek.kind == TokenType::Else {
                    let second = expect(then_end.advance().after(opened.1), TokenType::Lbrace);
                    if !second.0 {
                        (ExprView::Absent, second.1)
                    } else {
                        let alternative = block(second.1.after(opened.1));
                        (
                            ExprView::If {
                                condition: Box::new(condition.0),
                                consequence: Box::new(consequence.0),
                                alternative: Box::new(alternative.0),
                            },
                            alternative.1,
                        )
                    }
                } else {
                    (
                        ExprView::If {
                            condition: Box::new(condition.0),
                            consequence: Box::new(consequence.0),
                            alternative: Box::new(StatementView::Absent),
                        },
                        then_end,
                    )
                }
            }
        }
    }
}

/// Parses the names that follow the first parameter: each is a `,` and a
/// token whose text is taken as the name.
#[verifier::opaque]
pub open spec fn more_parameters(s: ParserView, names: Seq<Seq<char>>) -> (
    Seq<Seq<char>>,
    ParserView,
)
    decreases s.budget(),
{
    if s.peek.kind == TokenType::Comma {
        proof {
            lemma_advance(s);
            lemma_advance(s.advance());
        }
        let at_name = s.advance().advance();
        more_parameters(at_name, names.push(at_name.cur.literal))
    } else {
        (names, s)
    }
}

/// Parses the parameter list of a function literal whose `(` is the
/// current token, up to the closing `)`. Where that `)` is missing a
/// diagnostic is recorded and the names read so far are the result.
pub open spec fn function_parameters(s: ParserView) -> (Seq<Seq<char>>, ParserView) {
    if s.peek.kind == TokenType::Rparen {
        (Seq::empty(), s.advance())
    } else {
        let at_name = s.advance();
        let rest = more_parameters(at_name, seq![at_name.cur.literal]);
        (rest.0, expect(rest.1, TokenType::Rparen).1)
    }
}

/// Parses a function literal whose `fn` is the current token: the
/// parameter list and the body, a block. Where the `(` or the `{` is
/// missing the result is the placeholder.
#[verifier::opaque]
pub open spec fn function_literal(s: ParserView) -> (ExprView, ParserView)
    decreases s.budget(), 4nat,
{
    let opened = expect(s, TokenType::Lparen);
    if !opened.0 {
        (ExprView::Absent, opened.1)
    } else {
        proof {
            lemma_advance(s);
        }
        let parameters = function_parameters(opened.1);
        let braced = expect(parameters.1.after(opened.1), TokenType::Lbrace);
        if !braced.0 {
            (ExprView::Absent, braced.1)
        } else {
            let body = block(braced.1.after(opened.1));
            (ExprView::Fn { parameters: parameters.0, body: Box::new(body.0) }, body.1)
        }
    }
}

/// Parses the block whose `{` is the current token, up to its `}` or the
/// end of the input.
#[verifier::opaque]
pub open spec fn block(s: ParserView) -> (StatementView, ParserView)
    decreases s.budget(), 12nat,
{
    proof {
        lemma_advance(s);
    }
    let body = block_items(s.advance(), Seq::empty());
    (StatementView::Block(body.0), body.1)
}

/// Parses the statements of a block from the current token on. A statement
/// that comes to nothing leaves a diagnostic in place of an item.
#[verifier::opaque]
pub open spec fn block_items(s: ParserView, items: Seq<StatementView>) -> (
    Seq<StatementView>,
    ParserView,
)
    decreases s.budget(), 11nat,
{
    if s.cur.kind == TokenType::Rbrace || s.cur.kind == TokenType::Eof {
        (items, s)
    } else {
        let parsed = statement(s);
        let end = parsed.1.after(s);
        proof {
            lemma_advance(end);
        }
        if parsed.0 is Absent {
            block_items(end.note(block_error()).advance(), items)
        } else {
            block_items(end.advance(), items.push(parsed.0))
        }
    }
}

/// Parses one statement: a `let`, a `return`, or an expression. A `let`
/// that lacks its name or its `=` comes to nothing.
#[verifier::opaque]
pub open spec fn statement(s: ParserView) -> (StatementView, ParserView)
    decreases s.budget(), 10nat,
{
    let parsed = match s.cur.kind {
        TokenType::Let => let_statement(s),
        TokenType::Return => return_statement(s),
        _ => expression_statement(s),
    };
    match parsed.0 {
        Some(statement) => (statement, parsed.1),
        None => (StatementView::Absent, parsed.1),
    }
}

/// Parses `let`, a name, `=`, an expression, and takes tokens through the
/// end of the statement. `None`, with a diagnostic, where the name or the
/// `=` is missing.
#[verifier::opaque]
pub open spec fn let_statement(s: ParserView) -> (Option<StatementView>, ParserView)
    decreases s.budget(), 9nat,
{
    let named = expect(s, TokenType::Ident);
    if !named.0 {
        (None, named.1)
    } else {
        let assigned = expect(named.1, TokenType::Assign);
        if !assigned.0 {
            (None, assigned.1)
        } else {
            proof {
                lemma_advance(s);
                lemma_advance(s.advance());
                lemma_advance(s.advance().advance());
            }
            let value = expression(assigned.1.advance(), Precedence::Lowest);
            (
                Some(StatementView::Let { name: named.1.cur.literal, value: value.0 }),
                statement_end(value.1),
            )
        }
    }
}

/// Parses `return` and an expression, and takes tokens through the end of
/// the statement.
#[verifier::opaque]
pub open spec fn return_statement(s: ParserView) -> (Option<StatementView>, ParserView)
    decreases s.budget(), 9nat,
{
    proof {
        lemma_advance(s);
    }
    let value = expression(s.advance(), Precedence::Lowest);
    (Some(StatementView::Return(value.0)), statement_end(value.1))
}

/// Parses an expression as a statement; a `;` after it is taken.
#[verifier::opaque]
pub open spec fn expression_statement(s: ParserView) -> (Option<StatementView>, ParserView)
    decreases s.budget(), 9nat,
{
    let value = expression(s, Precedence::Lowest);
    (
        Some(StatementView::Expression(value.0)),
        if value.1.peek.kind == TokenType::Semicolon {
            value.1.advance()
        } else {
            value.1
        },
    )
}

/// Parses statements from the current token on until it is the end of the
/// input. A statement that comes to nothing is dropped.
#[verifier::opaque]
pub open spec fn program_items(s: ParserView, items: Seq<StatementView>) -> (
    Seq<StatementView>,
    ParserView,
)
    decreases s.budget(),
{
    if s.cur.kind == TokenType::Eof {
        (items, s)
    } else {
        let parsed = statement(s);
        let end = parsed.1.after(s);
        proof {
            lemma_advance(end);
        }
        if parsed.0 is Absent {
            program_items(end.advance(), items)
        } else {
            program_items(end.advance(), items.push(parsed.0))
        }
    }
}

/// Parses a whole program.
pub open spec fn program(s: ParserView) -> (Seq<StatementView>, ParserView) {
    program_items(s, Seq::empty())
}

} // verus!
