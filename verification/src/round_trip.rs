//! The round trip: the text of a canonical expression parses to the
//! expression.

use vstd::prelude::*;
use vstd::utf8::{encode_utf8, is_ascii_chars_encode_utf8};
use crate::ast::{concat, render_statements, ExprView, StatementView};
use crate::canonical::{
    canonical, lemma_lexes_expression, lemma_reads_at, lemma_reads_term, lemma_render_shape,
    lemma_skip_keeps, lemma_skip_next, reads, skip, tokens_of,
};
use crate::grammar::{
    expression, expression_statement, fold_operators, lemma_advance, program, program_items,
    statement, ParserView, Precedence,
};
use crate::lexer::scan;
use crate::lexing::{lemma_scan_at_end, lexes};
use crate::token::{TokenType, TokenView};

verus! {

/// A fresh parser that has taken one token is a fresh parser that starts
/// after that token.
pub proof fn lemma_start_advance(bytes: Seq<u8>, p: int)
    ensures
        ParserView::start(bytes, p).advance() == ParserView::start(bytes, scan(bytes, p).end),
{
}

/// A fresh parser reads the tokens that the tokenizer yields, and after
/// them it is a fresh parser at the place where the tokenizer stands.
pub proof fn lemma_start_reads(bytes: Seq<u8>, p: int, tokens: Seq<TokenView>, q: int)
    requires
        lexes(bytes, p, tokens, q),
    ensures
        reads(ParserView::start(bytes, p), tokens),
        skip(ParserView::start(bytes, p), tokens.len()) == ParserView::start(bytes, q),
    decreases tokens.len(),
{
    let s = ParserView::start(bytes, p);
    if tokens.len() > 0 {
        let next = scan(bytes, p).end;
        lemma_start_advance(bytes, p);
        lemma_start_reads(bytes, next, tokens.drop_first(), q);
        assert forall|i: int| 0 <= i < tokens.len() implies (#[trigger] skip(s, i as nat)).cur
            == tokens[i] by {
            if i > 0 {
                lemma_reads_at(ParserView::start(bytes, next), tokens.drop_first(), i - 1);
            }
        }
    }
}

/// The first token of a canonical expression begins an expression
/// statement: it is not the end of the input, nor `let`, nor `return`.
pub proof fn lemma_first_token(e: ExprView)
    requires
        canonical(e),
    ensures
        tokens_of(e).len() > 0,
        tokens_of(e)[0].kind != TokenType::Eof,
        tokens_of(e)[0].kind != TokenType::Let,
        tokens_of(e)[0].kind != TokenType::Return,
{
}

/// Rendering a canonical expression, tokenizing and parsing the text gives
/// a program of one statement, the expression itself, and no diagnostic;
/// rendering that program gives the text again.
pub proof fn lemma_round_trip(e: ExprView)
    requires
        canonical(e),
    ensures
        ({
            let source = encode_utf8(e.render());
            let parsed = program(ParserView::start(source, 0));
            &&& parsed.0 == seq![StatementView::Expression(e)]
            &&& parsed.1.errors == Seq::<Seq<char>>::empty()
            &&& concat(render_statements(parsed.0)) == e.render()
        }),
{
    reveal(expression);
    reveal(fold_operators);
    reveal(statement);
    reveal(expression_statement);
    reveal_with_fuel(program_items, 2);
    let text = e.render();
    let source = encode_utf8(text);
    let tokens = tokens_of(e);
    let n = tokens.len();
    let s = ParserView::start(source, 0);
    lemma_render_shape(e);
    is_ascii_chars_encode_utf8(text);
    lemma_lexes_expression(e, source, 0);
    lemma_start_reads(source, 0, tokens, source.len() as int);
    lemma_scan_at_end(source);
    lemma_first_token(e);
    lemma_reads_at(s, tokens, 0);
    lemma_reads_term(e, s, Precedence::Lowest);
    let end = skip(s, (n - 1) as nat);
    lemma_skip_next(s, (n - 1) as nat);
    lemma_skip_keeps(s, (n - 1) as nat);
    lemma_skip_keeps(s, n);
    lemma_advance(end);
    let items = seq![StatementView::Expression(e)];
    assert(concat(render_statements(items)) =~= text) by {
        reveal_with_fuel(concat, 2);
    }
}

} // verus!
