//! Facts about the tokenizer: what it makes of text whose spelling is
//! known.

use vstd::prelude::*;
use crate::lexer::{
    blank, byte_at, byte_chars, digit, fixed, lemma_span_end, lemma_span_end_from_inside, letter,
    scan, span_end, ByteClass, Scanned,
};
use crate::text::is_digit_char;
use crate::token::{keyword_or_ident, TokenType, TokenView};

verus! {

/// Whether `c` is an ASCII letter or the underscore.
pub open spec fn is_letter_char(c: char) -> bool {
    ('a' <= c <= 'z') || ('A' <= c <= 'Z') || c == '_'
}

/// The bytes of `bytes` from `p` on spell `text`, one byte per character.
pub open spec fn spells(bytes: Seq<u8>, p: int, text: Seq<char>) -> bool {
    &&& 0 <= p
    &&& p + text.len() <= bytes.len()
    &&& forall|i: int| 0 <= i < text.len() ==> bytes[p + i] == #[trigger] text[i] as u8
}

/// Scanning from `p` yields exactly the tokens of `tokens`, one after
/// another, and leaves the cursor at `q`.
pub open spec fn lexes(bytes: Seq<u8>, p: int, tokens: Seq<TokenView>, q: int) -> bool
    decreases tokens.len(),
{
    if tokens.len() == 0 {
        p == q
    } else {
        scan(bytes, p).token == tokens[0] && lexes(bytes, scan(bytes, p).end, tokens.drop_first(), q)
    }
}

/// A text that is spelled at `p` is spelled in two parts: the first at
/// `p`, the second right after it.
pub proof fn lemma_spells_split(bytes: Seq<u8>, p: int, first: Seq<char>, second: Seq<char>)
    requires
        spells(bytes, p, first + second),
    ensures
        spells(bytes, p, first),
        spells(bytes, p + first.len(), second),
{
    let whole = first + second;
    assert forall|i: int| 0 <= i < first.len() implies bytes[p + i] == #[trigger] first[i] as u8 by {
        assert(whole[i] == first[i]);
    }
    assert forall|i: int| 0 <= i < second.len() implies bytes[p + first.len() + i]
        == #[trigger] second[i] as u8 by {
        assert(whole[first.len() + i] == second[i]);
    }
}

/// Token runs that follow one another make one run.
pub proof fn lemma_lexes_join(
    bytes: Seq<u8>,
    p: int,
    first: Seq<TokenView>,
    m: int,
    second: Seq<TokenView>,
    q: int,
)
    requires
        lexes(bytes, p, first, m),
        lexes(bytes, m, second, q),
    ensures
        lexes(bytes, p, first + second, q),
    decreases first.len(),
{
    if first.len() == 0 {
    } else {
        lemma_lexes_join(bytes, scan(bytes, p).end, first.drop_first(), m, second, q);
        assert((first + second).drop_first() =~= first.drop_first() + second);
    }
}

/// One scanning step is a run of one token.
pub proof fn lemma_lexes_one(bytes: Seq<u8>, p: int, token: TokenView, q: int)
    requires
        scan(bytes, p) == (Scanned { token, end: q }),
    ensures
        lexes(bytes, p, seq![token], q),
{
    assert(seq![token].drop_first() =~= Seq::<TokenView>::empty());
    assert(lexes(bytes, q, Seq::<TokenView>::empty(), q));
}

/// A blank before a token changes nothing about the token.
pub proof fn lemma_scan_blank(bytes: Seq<u8>, p: int)
    requires
        0 <= p < bytes.len(),
        blank(bytes[p]),
    ensures
        scan(bytes, p) == scan(bytes, p + 1),
{
    reveal(scan);
}

/// A run of tokens may start on a blank.
pub proof fn lemma_lexes_blank(bytes: Seq<u8>, p: int, tokens: Seq<TokenView>, q: int)
    requires
        0 <= p < bytes.len(),
        blank(bytes[p]),
        tokens.len() > 0,
        lexes(bytes, p + 1, tokens, q),
    ensures
        lexes(bytes, p, tokens, q),
{
    lemma_scan_blank(bytes, p);
}

/// The operators and delimiters that expressions are written with.
pub open spec fn is_symbol(kind: TokenType) -> bool {
    match kind {
        TokenType::Lparen | TokenType::Rparen | TokenType::Plus | TokenType::Minus
        | TokenType::Asterisk | TokenType::Slash | TokenType::Lt | TokenType::Gt
        | TokenType::Bang | TokenType::Eq | TokenType::NotEq | TokenType::Le
        | TokenType::Ge => true,
        _ => false,
    }
}

/// The spelling of each symbol, character by character.
pub proof fn lemma_symbol_text(kind: TokenType)
    requires
        is_symbol(kind),
    ensures
        kind.symbol_text() == match kind {
            TokenType::Lparen => seq!['('],
            TokenType::Rparen => seq![')'],
            TokenType::Plus => seq!['+'],
            TokenType::Minus => seq!['-'],
            TokenType::Asterisk => seq!['*'],
            TokenType::Slash => seq!['/'],
            TokenType::Lt => seq!['<'],
            TokenType::Gt => seq!['>'],
            TokenType::Bang => seq!['!'],
            TokenType::Eq => seq!['=', '='],
            TokenType::NotEq => seq!['!', '='],
            TokenType::Le => seq!['<', '='],
            _ => seq!['>', '='],
        },
{
    reveal_strlit("(");
    reveal_strlit(")");
    reveal_strlit("+");
    reveal_strlit("-");
    reveal_strlit("*");
    reveal_strlit("/");
    reveal_strlit("<");
    reveal_strlit(">");
    reveal_strlit("!");
    reveal_strlit("==");
    reveal_strlit("!=");
    reveal_strlit("<=");
    reveal_strlit(">=");
    let text = kind.symbol_text();
    if text.len() == 1 {
    } else {
    }
}

/// A symbol that is spelled at `p` is scanned as its token. A symbol of
/// one character that `=` would turn into another is not followed by `=`.
pub proof fn lemma_scan_symbol(bytes: Seq<u8>, p: int, kind: TokenType)
    requires
        is_symbol(kind),
        spells(bytes, p, kind.symbol_text()),
        kind == TokenType::Lt || kind == TokenType::Gt || kind == TokenType::Bang ==> byte_at(
            bytes,
            p + 1,
        ) != 61,
    ensures
        scan(bytes, p) == (Scanned { token: fixed(kind), end: p + kind.symbol_text().len() }),
{
    reveal(scan);
    lemma_symbol_text(kind);
    let text = kind.symbol_text();
    assert(bytes[p + 0] == text[0] as u8);
    if text.len() == 2 {
    }
}

/// A word that is spelled at `p` and ends there is scanned as one token:
/// its keyword, or an identifier.
pub proof fn lemma_scan_word(bytes: Seq<u8>, p: int, word: Seq<char>)
    requires
        spells(bytes, p, word),
        word.len() > 0,
        forall|i: int| 0 <= i < word.len() ==> is_letter_char(#[trigger] word[i]),
        !letter(byte_at(bytes, p + word.len())),
    ensures
        scan(bytes, p) == (Scanned {
            token: TokenView { kind: keyword_or_ident(word), literal: word },
            end: p + word.len(),
        }),
{
    reveal(scan);
    let end = p + word.len();
    assert forall|k: int| p <= k < end implies letter(#[trigger] bytes[k]) by {
        assert(bytes[p + (k - p)] == word[k - p] as u8);
    }
    lemma_span_end_from_inside(bytes, p, end, ByteClass::Letter);
    assert(byte_chars(bytes.subrange(p, end)) =~= word);
}

/// A numeral that is spelled at `p` and ends there is scanned as one
/// integer token.
pub proof fn lemma_scan_numeral(bytes: Seq<u8>, p: int, text: Seq<char>)
    requires
        spells(bytes, p, text),
        text.len() > 0,
        forall|i: int| 0 <= i < text.len() ==> is_digit_char(#[trigger] text[i]),
        !digit(byte_at(bytes, p + text.len())),
    ensures
        scan(bytes, p) == (Scanned {
            token: TokenView { kind: TokenType::Int, literal: text },
            end: p + text.len(),
        }),
{
    reveal(scan);
    let end = p + text.len();
    assert forall|k: int| p <= k < end implies digit(#[trigger] bytes[k]) by {
        assert(bytes[p + (k - p)] == text[k - p] as u8);
    }
    lemma_span_end_from_inside(bytes, p, end, ByteClass::Digit);
    assert(byte_chars(bytes.subrange(p, end)) =~= text);
}

/// At the end of the text every scanning step yields the end-of-input
/// token and leaves the cursor where it is.
pub proof fn lemma_scan_at_end(bytes: Seq<u8>)
    ensures
        scan(bytes, bytes.len() as int) == (Scanned {
            token: TokenView { kind: TokenType::Eof, literal: Seq::empty() },
            end: bytes.len() as int,
        }),
{
    reveal(scan);
}

/// A scanning step never moves the cursor back, nor beyond the end of the
/// text; before the end it moves the cursor on, and a token other than the
/// end of the input takes at least one byte.
pub proof fn lemma_scan_bounds(bytes: Seq<u8>, p: int)
    requires
        0 <= p <= bytes.len(),
    ensures
        p <= scan(bytes, p).end <= bytes.len(),
        p < bytes.len() ==> p < scan(bytes, p).end,
        scan(bytes, p).token.kind != TokenType::Eof ==> p < scan(bytes, p).end,
{
    reveal(scan);
    let q = span_end(bytes, p, ByteClass::Blank);
    lemma_span_end(bytes, p, ByteClass::Blank);
    lemma_span_end(bytes, q, ByteClass::Letter);
    lemma_span_end(bytes, q, ByteClass::Digit);
}

} // verus!
