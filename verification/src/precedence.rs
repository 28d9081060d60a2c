//! How two infix operators in a row share the operand between them.

use vstd::prelude::*;
use crate::ast::ExprView;
use crate::canonical::{
    canonical, is_infix_operator, lemma_reads_at, lemma_reads_part, lemma_reads_term,
    lemma_skip_add, lemma_skip_keeps, lemma_skip_next, lemma_tokens_of_nonempty, reads, skip,
    tokens_of,
};
use crate::grammar::{
    expression, fold_operators, infix_expression, lemma_advance, ParserView, Precedence,
};
use crate::lexer::fixed;
use crate::token::{TokenType, TokenView};

verus! {

/// The tokens of `a op1 b op2 c`, written without parentheses between
/// canonical operands, and of the token that ends the expression.
pub open spec fn chain_tokens(
    a: ExprView,
    op1: TokenType,
    b: ExprView,
    op2: TokenType,
    c: ExprView,
    end: TokenView,
) -> Seq<TokenView> {
    tokens_of(a) + seq![fixed(op1)] + tokens_of(b) + seq![fixed(op2)] + tokens_of(c) + seq![end]
}

/// What the parser makes of `a op1 b op2 c`: the second operator takes the
/// middle operand if it binds tighter than the first; otherwise the first
/// takes it, so operators of equal precedence group to the left.
pub open spec fn chain_tree(
    a: ExprView,
    op1: TokenType,
    b: ExprView,
    op2: TokenType,
    c: ExprView,
) -> ExprView {
    if Precedence::of_kind(op1).rank() < Precedence::of_kind(op2).rank() {
        ExprView::Infix {
            left: Box::new(a),
            op: op1,
            right: Box::new(
                ExprView::Infix { left: Box::new(b), op: op2, right: Box::new(c) },
            ),
        }
    } else {
        ExprView::Infix {
            left: Box::new(
                ExprView::Infix { left: Box::new(a), op: op1, right: Box::new(b) },
            ),
            op: op2,
            right: Box::new(c),
        }
    }
}

/// Precedence and associativity: of two infix operators in a row, the one
/// that binds tighter takes the operand between them, and of two that bind
/// alike, the left one.
pub proof fn lemma_two_operators(
    a: ExprView,
    op1: TokenType,
    b: ExprView,
    op2: TokenType,
    c: ExprView,
    end: TokenView,
    s: ParserView,
)
    requires
        canonical(a),
        canonical(b),
        canonical(c),
        is_infix_operator(op1),
        is_infix_operator(op2),
        Precedence::of_kind(end.kind) == Precedence::Lowest,
        reads(s, chain_tokens(a, op1, b, op2, c, end)),
    ensures
        expression(s, Precedence::Lowest) == (
            chain_tree(a, op1, b, op2, c),
            skip(s, (tokens_of(a).len() + tokens_of(b).len() + tokens_of(c).len() + 1) as nat),
        ),
{
    reveal(expression);
    reveal(fold_operators);
    reveal(infix_expression);
    let all = chain_tokens(a, op1, b, op2, c, end);
    let na = tokens_of(a).len();
    let nb = tokens_of(b).len();
    let nc = tokens_of(c).len();
    lemma_tokens_of_nonempty(a);
    lemma_tokens_of_nonempty(b);
    lemma_tokens_of_nonempty(c);
    let p1 = Precedence::of_kind(op1);
    let p2 = Precedence::of_kind(op2);
    let lowest = Precedence::Lowest;

    let after_a = skip(s, (na - 1) as nat);
    let at_one = skip(s, na);
    let at_b = skip(s, na + 1);
    let after_b = skip(s, na + nb);
    let at_two = skip(s, na + nb + 1);
    let at_c = skip(s, na + nb + 2);
    let after_c = skip(s, na + nb + nc + 1);

    lemma_reads_part(s, all, 0, tokens_of(a));
    lemma_reads_term(a, s, lowest);
    lemma_skip_next(s, (na - 1) as nat);
    lemma_reads_at(s, all, na as int);
    lemma_advance(after_a);
    lemma_skip_next(s, na);
    lemma_advance(at_one);

    lemma_reads_part(s, all, na + 1, tokens_of(b));
    lemma_reads_term(b, at_b, p1);
    lemma_skip_add(s, na + 1, (nb - 1) as nat);
    lemma_skip_next(s, na + nb);
    lemma_reads_at(s, all, (na + nb + 1) as int);
    lemma_advance(after_b);
    lemma_skip_next(s, na + nb + 1);
    lemma_advance(at_two);

    lemma_reads_part(s, all, na + nb + 2, tokens_of(c));
    lemma_reads_term(c, at_c, p2);
    lemma_skip_add(s, na + nb + 2, (nc - 1) as nat);
    lemma_skip_next(s, na + nb + nc + 1);
    lemma_reads_at(s, all, (na + nb + nc + 2) as int);

    lemma_skip_add(s, na + nb + 1, nc);
    lemma_skip_keeps(at_two, nc);
    lemma_skip_add(s, na, nb);
    lemma_skip_keeps(at_one, nb);
    lemma_skip_add(s, na, nb + nc + 1);
    lemma_skip_keeps(at_one, nb + nc + 1);

    let inner = ExprView::Infix { left: Box::new(b), op: op2, right: Box::new(c) };
    let outer = ExprView::Infix { left: Box::new(a), op: op1, right: Box::new(b) };
    if p1.rank() < p2.rank() {
        assert(infix_expression(at_two, b) == (inner, after_c));
        assert(fold_operators(after_c, inner, p1) == (inner, after_c));
        let whole = chain_tree(a, op1, b, op2, c);
        assert(infix_expression(at_one, a) == (whole, after_c));
        assert(fold_operators(after_c, whole, lowest) == (whole, after_c));
    } else {
        assert(infix_expression(at_one, a) == (outer, after_b));
        let whole = chain_tree(a, op1, b, op2, c);
        assert(infix_expression(at_two, outer) == (whole, after_c));
        assert(fold_operators(after_c, whole, lowest) == (whole, after_c));
        assert(fold_operators(after_b, outer, lowest) == (whole, after_c));
    }
}

} // verus!
