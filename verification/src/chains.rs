//! Two infix operators in a row, as text: what the tokenizer and the parser
//! make of `a op1 b op2 c`.

use vstd::prelude::*;
use vstd::utf8::{encode_utf8, is_ascii_chars, is_ascii_chars_encode_utf8};
use crate::ast::{ExprView, StatementView};
use crate::canonical::{
    canonical, is_infix_operator, lemma_lexes_expression, lemma_reads_at, lemma_render_shape,
    lemma_skip_keeps, lemma_skip_next, lemma_tokens_of_nonempty, reads, skip, tokens_of,
};
use crate::grammar::{
    expression, expression_statement, lemma_advance, program, program_items, statement,
    ParserView, Precedence,
};
use crate::lexer::fixed;
use crate::lexing::{
    lemma_lexes_blank, lemma_lexes_join, lemma_lexes_one, lemma_scan_at_end, lemma_scan_symbol,
    lemma_spells_split, lemma_symbol_text, lexes, spells,
};
use crate::precedence::{chain_tokens, chain_tree, lemma_two_operators};
use crate::round_trip::{lemma_first_token, lemma_start_reads};
use crate::token::{TokenType, TokenView};

verus! {

/// The text of `a op1 b op2 c`: the operands as they render, the
/// operators between them, a space on each side of an operator and no
/// parentheses around the whole.
pub open spec fn chain_text(
    a: ExprView,
    op1: TokenType,
    b: ExprView,
    op2: TokenType,
    c: ExprView,
) -> Seq<char> {
    a.render() + " "@ + op1.symbol_text() + " "@ + b.render() + " "@ + op2.symbol_text() + " "@
        + c.render()
}

/// The end-of-input token.
pub open spec fn end_token() -> TokenView {
    TokenView { kind: TokenType::Eof, literal: Seq::empty() }
}

/// The tokenizer reads an operand and the operator after it, where the
/// operand stands at `p` and a space stands on each side of the operator.
proof fn lemma_lexes_operand_and_operator(
    e: ExprView,
    op: TokenType,
    rest: Seq<char>,
    bytes: Seq<u8>,
    p: int,
)
    requires
        canonical(e),
        is_infix_operator(op),
        spells(bytes, p, e.render() + " "@ + op.symbol_text() + " "@ + rest),
    ensures
        lexes(
            bytes,
            p,
            tokens_of(e) + seq![fixed(op)],
            p + e.render().len() + 1 + op.symbol_text().len(),
        ),
        spells(bytes, p + e.render().len() + 2 + op.symbol_text().len(), rest),
        bytes[p + e.render().len() + 1 + op.symbol_text().len()] == 32,
{
    let text = e.render();
    let sym = op.symbol_text();
    let space = " "@;
    reveal_strlit(" ");
    lemma_symbol_text(op);
    lemma_spells_split(bytes, p, text + space + sym + space, rest);
    lemma_spells_split(bytes, p, text + space + sym, space);
    lemma_spells_split(bytes, p, text + space, sym);
    lemma_spells_split(bytes, p, text, space);
    let gap = p + text.len();
    let at_op = gap + 1;
    let gap_two = at_op + sym.len();
    assert(bytes[gap + 0] == space[0] as u8);
    assert(bytes[gap_two + 0] == space[0] as u8);
    lemma_lexes_expression(e, bytes, p);
    lemma_scan_symbol(bytes, at_op, op);
    lemma_lexes_one(bytes, at_op, fixed(op), gap_two);
    lemma_lexes_blank(bytes, gap, seq![fixed(op)], gap_two);
    lemma_lexes_join(bytes, p, tokens_of(e), gap, seq![fixed(op)], gap_two);
}

/// The tokenizer reads the text of `a op1 b op2 c` as the tokens of the
/// three operands with the two operators between them.
pub proof fn lemma_lexes_chain(
    a: ExprView,
    op1: TokenType,
    b: ExprView,
    op2: TokenType,
    c: ExprView,
)
    requires
        canonical(a),
        canonical(b),
        canonical(c),
        is_infix_operator(op1),
        is_infix_operator(op2),
    ensures
        lexes(
            encode_utf8(chain_text(a, op1, b, op2, c)),
            0,
            tokens_of(a) + seq![fixed(op1)] + tokens_of(b) + seq![fixed(op2)] + tokens_of(c),
            encode_utf8(chain_text(a, op1, b, op2, c)).len() as int,
        ),
{
    let text = chain_text(a, op1, b, op2, c);
    let bytes = encode_utf8(text);
    let space = " "@;
    reveal_strlit(" ");
    lemma_symbol_text(op1);
    lemma_symbol_text(op2);
    lemma_render_shape(a);
    lemma_render_shape(b);
    lemma_render_shape(c);
    lemma_tokens_of_nonempty(b);
    lemma_tokens_of_nonempty(c);
    assert(is_ascii_chars(text));
    is_ascii_chars_encode_utf8(text);
    assert(spells(bytes, 0, text));
    let rest_one = b.render() + space + op2.symbol_text() + space + c.render();
    assert(text =~= a.render() + space + op1.symbol_text() + space + rest_one);
    lemma_lexes_operand_and_operator(a, op1, rest_one, bytes, 0);
    let gap_one: int = (a.render().len() + 1 + op1.symbol_text().len()) as int;
    let at_b: int = gap_one + 1;
    lemma_lexes_operand_and_operator(b, op2, c.render(), bytes, at_b);
    let gap_two: int = at_b + b.render().len() + 1 + op2.symbol_text().len();
    let at_c: int = gap_two + 1;
    assert(at_c + c.render().len() == bytes.len());
    lemma_lexes_expression(c, bytes, at_c);
    lemma_lexes_blank(bytes, gap_two, tokens_of(c), bytes.len() as int);
    lemma_lexes_join(
        bytes,
        at_b,
        tokens_of(b) + seq![fixed(op2)],
        gap_two,
        tokens_of(c),
        bytes.len() as int,
    );
    lemma_lexes_blank(
        bytes,
        gap_one,
        tokens_of(b) + seq![fixed(op2)] + tokens_of(c),
        bytes.len() as int,
    );
    lemma_lexes_join(
        bytes,
        0,
        tokens_of(a) + seq![fixed(op1)],
        gap_one,
        tokens_of(b) + seq![fixed(op2)] + tokens_of(c),
        bytes.len() as int,
    );
    assert(tokens_of(a) + seq![fixed(op1)] + (tokens_of(b) + seq![fixed(op2)] + tokens_of(c))
        =~= tokens_of(a) + seq![fixed(op1)] + tokens_of(b) + seq![fixed(op2)] + tokens_of(c));
}

/// Precedence and associativity, from text to tree: the text
/// `a op1 b op2 c` parses, without a diagnostic, to a program of one
/// statement, in which the operator that binds tighter has the operand
/// between the two, and the left one if they bind alike.
pub proof fn lemma_two_operators_in_text(
    a: ExprView,
    op1: TokenType,
    b: ExprView,
    op2: TokenType,
    c: ExprView,
)
    requires
        canonical(a),
        canonical(b),
        canonical(c),
        is_infix_operator(op1),
        is_infix_operator(op2),
    ensures
        ({
            let source = encode_utf8(chain_text(a, op1, b, op2, c));
            let parsed = program(ParserView::start(source, 0));
            &&& parsed.0 == seq![StatementView::Expression(chain_tree(a, op1, b, op2, c))]
            &&& parsed.1.errors == Seq::<Seq<char>>::empty()
        }),
{
    reveal(expression);
    reveal(statement);
    reveal(expression_statement);
    reveal_with_fuel(program_items, 2);
    let source = encode_utf8(chain_text(a, op1, b, op2, c));
    let s = ParserView::start(source, 0);
    let tokens = tokens_of(a) + seq![fixed(op1)] + tokens_of(b) + seq![fixed(op2)] + tokens_of(c);
    let n = tokens.len();
    let all = chain_tokens(a, op1, b, op2, c, end_token());
    lemma_lexes_chain(a, op1, b, op2, c);
    lemma_start_reads(source, 0, tokens, source.len() as int);
    lemma_scan_at_end(source);
    assert(skip(s, n).cur == end_token());
    assert forall|i: int| 0 <= i < all.len() implies (#[trigger] skip(s, i as nat)).cur
        == all[i] by {
        if i < n {
            lemma_reads_at(s, tokens, i);
        }
    }
    lemma_two_operators(a, op1, b, op2, c, end_token(), s);
    lemma_first_token(a);
    lemma_reads_at(s, tokens, 0);
    let end = skip(s, (n - 1) as nat);
    lemma_skip_next(s, (n - 1) as nat);
    lemma_skip_keeps(s, (n - 1) as nat);
    lemma_skip_keeps(s, n);
    lemma_advance(end);
    let tree = chain_tree(a, op1, b, op2, c);
    assert(expression(s, Precedence::Lowest) == (tree, end));
    assert(end.peek.kind == TokenType::Eof);
    assert(statement(s) == (StatementView::Expression(tree), end));
    assert(Seq::<StatementView>::empty().push(StatementView::Expression(tree))
        =~= seq![StatementView::Expression(tree)]);
}

} // verus!
