//! Expressions in canonical form, and the round trip of such an expression
//! through its text.

use vstd::prelude::*;
use vstd::utf8::is_ascii_chars;
use crate::ast::ExprView;
use crate::grammar::{
    expression, fold_operators, infix_expression, lemma_advance, ParserView, Precedence,
};
use crate::lexer::{byte_at, digit, fixed, letter};
use crate::lexing::{
    is_letter_char, lemma_lexes_blank, lemma_lexes_join, lemma_lexes_one, lemma_scan_numeral,
    lemma_scan_symbol, lemma_scan_word, lemma_spells_split, lemma_symbol_text, lexes, spells,
};
use crate::text::{bool_text, decimal, digits_of, is_digit_char, numeral_value};
use crate::token::{keyword_or_ident, TokenType, TokenView};

verus! {

/// The operators that stand before an operand.
pub open spec fn is_prefix_operator(op: TokenType) -> bool {
    op == TokenType::Bang || op == TokenType::Minus || op == TokenType::Plus
}

/// The operators that stand between two operands.
pub open spec fn is_infix_operator(op: TokenType) -> bool {
    match op {
        TokenType::Plus | TokenType::Minus | TokenType::Asterisk | TokenType::Slash
        | TokenType::Lt | TokenType::Gt | TokenType::Eq | TokenType::NotEq | TokenType::Le
        | TokenType::Ge => true,
        _ => false,
    }
}

/// A name as the tokenizer reads one: letters and underscores, at least
/// one, and no keyword.
pub open spec fn is_name(text: Seq<char>) -> bool {
    &&& text.len() > 0
    &&& forall|i: int| 0 <= i < text.len() ==> is_letter_char(#[trigger] text[i])
    &&& keyword_or_ident(text) == TokenType::Ident
}

/// The expressions whose text reads back as themselves: names, integer
/// literals that are not negative, boolean literals, and prefix and infix
/// operations on such expressions.
pub open spec fn canonical(e: ExprView) -> bool
    decreases e,
{
    match e {
        ExprView::Ident(name) => is_name(name),
        ExprView::Integer(value) => value >= 0,
        ExprView::Boolean(_) => true,
        ExprView::Prefix { op, right } => is_prefix_operator(op) && canonical(*right),
        ExprView::Infix { left, op, right } => is_infix_operator(op) && canonical(*left)
            && canonical(*right),
        _ => false,
    }
}

/// The tokens of the text of a canonical expression.
pub open spec fn tokens_of(e: ExprView) -> Seq<TokenView>
    decreases e,
{
    match e {
        ExprView::Ident(name) => seq![TokenView { kind: TokenType::Ident, literal: name }],
        ExprView::Integer(value) => seq![
            TokenView { kind: TokenType::Int, literal: decimal(value as int) },
        ],
        ExprView::Boolean(value) => seq![
            fixed(
                if value {
                    TokenType::True
                } else {
                    TokenType::False
                },
            ),
        ],
        ExprView::Prefix { op, right } => seq![fixed(TokenType::Lparen), fixed(op)] + tokens_of(
            *right,
        ) + seq![fixed(TokenType::Rparen)],
        ExprView::Infix { left, op, right } => seq![fixed(TokenType::Lparen)] + tokens_of(*left)
            + seq![fixed(op)] + tokens_of(*right) + seq![fixed(TokenType::Rparen)],
        _ => Seq::empty(),
    }
}

/// The digits of a number are digits, and they denote the number.
pub proof fn lemma_digits_of(n: nat)
    ensures
        digits_of(n).len() > 0,
        forall|i: int| 0 <= i < digits_of(n).len() ==> is_digit_char(#[trigger] digits_of(n)[i]),
        numeral_value(digits_of(n)) == n,
    decreases n,
{
    if n < 10 {
        assert(numeral_value(digits_of(n)) == n) by {
            reveal_with_fuel(numeral_value, 2);
        }
    } else {
        lemma_digits_of(n / 10);
        assert(digits_of(n).drop_last() =~= digits_of(n / 10));
    }
}

/// The spelling of the two boolean literals.
pub proof fn lemma_bool_text(value: bool)
    ensures
        bool_text(value).len() > 0,
        forall|i: int|
            0 <= i < bool_text(value).len() ==> is_letter_char(#[trigger] bool_text(value)[i]),
        keyword_or_ident(bool_text(value)) == if value {
            TokenType::True
        } else {
            TokenType::False
        },
        bool_text(value) == (if value {
            TokenType::True
        } else {
            TokenType::False
        }).symbol_text(),
{
    reveal_strlit("fn");
    reveal_strlit("let");
    reveal_strlit("if");
    reveal_strlit("else");
    reveal_strlit("return");
    reveal_strlit("true");
    reveal_strlit("false");
    assert("false"@.len() == 5);
    assert("true"@[0] == 't' && "false"@[0] == 'f');
}

/// The text of a canonical expression is not empty and starts with `(`, a
/// letter or a digit; all of it is ASCII.
pub proof fn lemma_render_shape(e: ExprView)
    requires
        canonical(e),
    ensures
        e.render().len() > 0,
        e.render()[0] == '(' || is_letter_char(e.render()[0]) || is_digit_char(e.render()[0]),
        is_ascii_chars(e.render()),
    decreases e,
{
    reveal_strlit("(");
    reveal_strlit(")");
    reveal_strlit(" ");
    match e {
        ExprView::Ident(name) => {},
        ExprView::Integer(value) => {
            lemma_digits_of(value as nat);
        },
        ExprView::Boolean(value) => {
            lemma_bool_text(value);
        },
        ExprView::Prefix { op, right } => {
            lemma_render_shape(*right);
            lemma_symbol_text(op);
        },
        ExprView::Infix { left, op, right } => {
            lemma_render_shape(*left);
            lemma_render_shape(*right);
            lemma_symbol_text(op);
        },
        _ => {},
    }
}

/// A canonical expression has at least one token.
pub proof fn lemma_tokens_of_nonempty(e: ExprView)
    requires
        canonical(e),
    ensures
        tokens_of(e).len() > 0,
{
}

/// The tokenizer reads the text of a canonical expression as the tokens of
/// the expression, wherever the text stands, if no letter or digit follows
/// it.
pub proof fn lemma_lexes_expression(e: ExprView, bytes: Seq<u8>, p: int)
    requires
        canonical(e),
        spells(bytes, p, e.render()),
        !letter(byte_at(bytes, p + e.render().len())),
        !digit(byte_at(bytes, p + e.render().len())),
    ensures
        lexes(bytes, p, tokens_of(e), p + e.render().len()),
    decreases e,
{
    let open = "("@;
    let close = ")"@;
    let space = " "@;
    let lparen = seq![fixed(TokenType::Lparen)];
    let rparen = seq![fixed(TokenType::Rparen)];
    lemma_symbol_text(TokenType::Lparen);
    lemma_symbol_text(TokenType::Rparen);
    reveal_strlit(" ");
    match e {
        ExprView::Ident(name) => {
            lemma_scan_word(bytes, p, name);
            lemma_lexes_one(bytes, p, tokens_of(e)[0], p + name.len());
        },
        ExprView::Integer(value) => {
            lemma_digits_of(value as nat);
            lemma_scan_numeral(bytes, p, decimal(value as int));
            lemma_lexes_one(bytes, p, tokens_of(e)[0], p + e.render().len());
        },
        ExprView::Boolean(value) => {
            lemma_bool_text(value);
            lemma_scan_word(bytes, p, bool_text(value));
            lemma_lexes_one(bytes, p, tokens_of(e)[0], p + e.render().len());
        },
        ExprView::Prefix { op, right } => {
            let sym = op.symbol_text();
            let operand = right.render();
            lemma_symbol_text(op);
            lemma_render_shape(*right);
            lemma_spells_split(bytes, p, open + sym + operand, close);
            lemma_spells_split(bytes, p, open + sym, operand);
            lemma_spells_split(bytes, p, open, sym);
            let at_op = p + 1;
            let at_operand = at_op + sym.len();
            let at_close = at_operand + operand.len();
            lemma_scan_symbol(bytes, p, TokenType::Lparen);
            lemma_lexes_one(bytes, p, fixed(TokenType::Lparen), at_op);
            lemma_scan_symbol(bytes, at_op, op);
            lemma_lexes_one(bytes, at_op, fixed(op), at_operand);
            lemma_lexes_expression(*right, bytes, at_operand);
            lemma_scan_symbol(bytes, at_close, TokenType::Rparen);
            lemma_lexes_one(bytes, at_close, fixed(TokenType::Rparen), at_close + 1);
            lemma_lexes_join(bytes, p, lparen, at_op, seq![fixed(op)], at_operand);
            assert(lparen + seq![fixed(op)] =~= seq![fixed(TokenType::Lparen), fixed(op)]);
            lemma_lexes_join(
                bytes,
                p,
                seq![fixed(TokenType::Lparen), fixed(op)],
                at_operand,
                tokens_of(*right),
                at_close,
            );
            lemma_lexes_join(
                bytes,
                p,
                seq![fixed(TokenType::Lparen), fixed(op)] + tokens_of(*right),
                at_close,
                rparen,
                at_close + 1,
            );
        },
        ExprView::Infix { left, op, right } => {
            let sym = op.symbol_text();
            let first = left.render();
            let second = right.render();
            lemma_symbol_text(op);
            lemma_render_shape(*left);
            lemma_render_shape(*right);
            lemma_tokens_of_nonempty(*right);
            lemma_spells_split(bytes, p, open + first + space + sym + space + second, close);
            lemma_spells_split(bytes, p, open + first + space + sym + space, second);
            lemma_spells_split(bytes, p, open + first + space + sym, space);
            lemma_spells_split(bytes, p, open + first + space, sym);
            lemma_spells_split(bytes, p, open + first, space);
            lemma_spells_split(bytes, p, open, first);
            let at_first = p + 1;
            let gap = at_first + first.len();
            let at_op = gap + 1;
            let gap_two = at_op + sym.len();
            let at_second = gap_two + 1;
            let at_close = at_second + second.len();
            assert(bytes[gap_two + 0] == space[0] as u8);
            assert(bytes[at_close + 0] == close[0] as u8);
            lemma_scan_symbol(bytes, p, TokenType::Lparen);
            lemma_lexes_one(bytes, p, fixed(TokenType::Lparen), at_first);
            lemma_lexes_expression(*left, bytes, at_first);
            lemma_scan_symbol(bytes, at_op, op);
            lemma_lexes_one(bytes, at_op, fixed(op), gap_two);
            lemma_lexes_blank(bytes, gap, seq![fixed(op)], gap_two);
            lemma_lexes_expression(*right, bytes, at_second);
            lemma_lexes_blank(bytes, gap_two, tokens_of(*right), at_close);
            lemma_scan_symbol(bytes, at_close, TokenType::Rparen);
            lemma_lexes_one(bytes, at_close, fixed(TokenType::Rparen), at_close + 1);
            lemma_lexes_join(bytes, p, lparen, at_first, tokens_of(*left), gap);
            lemma_lexes_join(bytes, p, lparen + tokens_of(*left), gap, seq![fixed(op)], gap_two);
            lemma_lexes_join(
                bytes,
                p,
                lparen + tokens_of(*left) + seq![fixed(op)],
                gap_two,
                tokens_of(*right),
                at_close,
            );
            lemma_lexes_join(
                bytes,
                p,
                lparen + tokens_of(*left) + seq![fixed(op)] + tokens_of(*right),
                at_close,
                rparen,
                at_close + 1,
            );
        },
        _ => {},
    }
}

/// The state after `n` tokens are taken.
pub open spec fn skip(s: ParserView, n: nat) -> ParserView
    decreases n,
{
    if n == 0 {
        s
    } else {
        skip(s.advance(), (n - 1) as nat)
    }
}

/// The tokens that a parser in state `s` meets, from the current one on,
/// begin with `tokens`.
pub open spec fn reads(s: ParserView, tokens: Seq<TokenView>) -> bool {
    forall|i: int| 0 <= i < tokens.len() ==> (#[trigger] skip(s, i as nat)).cur == tokens[i]
}

/// Taking `a` tokens and then `b` is taking `a + b`.
pub proof fn lemma_skip_add(s: ParserView, a: nat, b: nat)
    ensures
        skip(skip(s, a), b) == skip(s, a + b),
    decreases a,
{
    if a > 0 {
        lemma_skip_add(s.advance(), (a - 1) as nat, b);
    }
}

/// Taking tokens never raises the budget and leaves the source and the
/// diagnostics alone.
pub proof fn lemma_skip_keeps(s: ParserView, n: nat)
    ensures
        skip(s, n).budget() <= s.budget(),
        skip(s, n).source == s.source,
        skip(s, n).errors == s.errors,
    decreases n,
{
    if n > 0 {
        lemma_advance(s);
        lemma_skip_keeps(s.advance(), (n - 1) as nat);
    }
}

/// Where a parser reads `whole`, it reads each part of `whole` from the
/// place at which the part begins.
pub proof fn lemma_reads_part(s: ParserView, whole: Seq<TokenView>, k: nat, part: Seq<TokenView>)
    requires
        reads(s, whole),
        k + part.len() <= whole.len(),
        forall|i: int| 0 <= i < part.len() ==> whole[k + i] == part[i],
    ensures
        reads(skip(s, k), part),
{
    assert forall|i: int| 0 <= i < part.len() implies (#[trigger] skip(skip(s, k), i as nat)).cur
        == part[i] by {
        lemma_skip_add(s, k, i as nat);
    }
}

/// Taking one token more.
pub proof fn lemma_skip_next(s: ParserView, n: nat)
    ensures
        skip(s, n + 1) == skip(s, n).advance(),
        skip(s, n + 1).cur == skip(s, n).peek,
{
    lemma_skip_add(s, n, 1);
    reveal_with_fuel(skip, 2);
}

/// The token that a parser reads at index `i`.
pub proof fn lemma_reads_at(s: ParserView, tokens: Seq<TokenView>, i: int)
    requires
        reads(s, tokens),
        0 <= i < tokens.len(),
    ensures
        skip(s, i as nat).cur == tokens[i],
{
}

/// The parser makes of the tokens of a canonical expression the expression
/// itself, as the left operand of whatever follows.
pub proof fn lemma_reads_term(e: ExprView, s: ParserView, prec: Precedence)
    requires
        canonical(e),
        reads(s, tokens_of(e)),
    ensures
        expression(s, prec) == fold_operators(
            skip(s, (tokens_of(e).len() - 1) as nat),
            e,
            prec,
        ),
    decreases e, 1nat,
{
    reveal(expression);
    reveal(fold_operators);
    reveal(infix_expression);
    let n = tokens_of(e).len();
    lemma_tokens_of_nonempty(e);
    lemma_reads_at(s, tokens_of(e), 0);
    match e {
        ExprView::Ident(name) => {},
        ExprView::Integer(value) => {
            lemma_digits_of(value as nat);
        },
        ExprView::Boolean(value) => {},
        _ => {
            lemma_reads_inside(e, s);
            let last = skip(s, (n - 2) as nat);
            lemma_skip_keeps(s, (n - 2) as nat);
            lemma_skip_next(s, (n - 2) as nat);
            lemma_reads_at(s, tokens_of(e), n - 1);
            lemma_advance(last);
            lemma_skip_keeps(s, (n - 1) as nat);
        },
    }
}

/// Between the parentheses of a canonical operation the parser finds the
/// operation, and stops before the closing parenthesis.
pub proof fn lemma_reads_inside(e: ExprView, s: ParserView)
    requires
        canonical(e),
        e is Prefix || e is Infix,
        reads(s, tokens_of(e)),
    ensures
        expression(s.advance(), Precedence::Lowest) == (
            e,
            skip(s, (tokens_of(e).len() - 2) as nat),
        ),
    decreases e, 0nat,
{
    reveal(expression);
    reveal(fold_operators);
    reveal(infix_expression);
    let all = tokens_of(e);
    let inside = s.advance();
    lemma_skip_next(s, 0);
    lemma_advance(s);
    match e {
        ExprView::Prefix { op, right } => {
            let m = tokens_of(*right).len();
            lemma_tokens_of_nonempty(*right);
            lemma_reads_at(s, all, 1);
            let at_operand = skip(s, 2);
            lemma_skip_next(s, 1);
            lemma_advance(inside);
            lemma_reads_part(s, all, 2, tokens_of(*right));
            lemma_reads_term(*right, at_operand, Precedence::Prefix);
            let end = skip(s, (m + 1) as nat);
            lemma_skip_add(s, 2, (m - 1) as nat);
            lemma_skip_next(s, (m + 1) as nat);
            lemma_reads_at(s, all, (m + 2) as int);
            lemma_skip_keeps(inside, m);
            lemma_skip_add(s, 1, m);
            assert(fold_operators(end, e, Precedence::Lowest) == (e, end));
        },
        ExprView::Infix { left, op, right } => {
            let a = tokens_of(*left).len();
            let c = tokens_of(*right).len();
            lemma_tokens_of_nonempty(*left);
            lemma_tokens_of_nonempty(*right);
            lemma_reads_part(s, all, 1, tokens_of(*left));
            lemma_reads_term(*left, inside, Precedence::Lowest);
            let after_left = skip(s, a);
            lemma_skip_add(s, 1, (a - 1) as nat);
            let at_operator = skip(s, (a + 1) as nat);
            lemma_skip_next(s, a);
            lemma_reads_at(s, all, (a + 1) as int);
            lemma_advance(after_left);
            let at_second = skip(s, (a + 2) as nat);
            lemma_skip_next(s, (a + 1) as nat);
            lemma_advance(at_operator);
            lemma_reads_part(s, all, (a + 2) as nat, tokens_of(*right));
            lemma_reads_term(*right, at_second, Precedence::of_kind(op));
            let end = skip(s, (a + c + 1) as nat);
            lemma_skip_add(s, (a + 2) as nat, (c - 1) as nat);
            lemma_skip_next(s, (a + c + 1) as nat);
            lemma_reads_at(s, all, (a + c + 2) as int);
            lemma_skip_keeps(at_operator, c);
            lemma_skip_add(s, (a + 1) as nat, c);
            assert(infix_expression(at_operator, *left) == (e, end));
            assert(fold_operators(end, e, Precedence::Lowest) == (e, end));
        },
        _ => {},
    }
}

} // verus!
