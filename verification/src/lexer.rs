//! The tokenizer: a byte cursor over the source text that hands out one
//! token at a time.

use vstd::prelude::*;
use vstd::string::*;
use vstd::utf8::*;
use crate::text::push_char;
use crate::token::{keyword_or_ident, lookup_ident, Token, TokenType, TokenView};

verus! {

/// Space, tab, line feed or carriage return.
pub open spec fn blank(b: u8) -> bool {
    b == 32 || b == 9 || b == 10 || b == 13
}

/// An ASCII letter or the underscore.
pub open spec fn letter(b: u8) -> bool {
    97 <= b <= 122 || 65 <= b <= 90 || b == 95
}

/// An ASCII decimal digit.
pub open spec fn digit(b: u8) -> bool {
    48 <= b <= 57
}

/// The classes of bytes that the scanner consumes in runs.
pub enum ByteClass {
    Blank,
    Letter,
    Digit,
}

impl ByteClass {
    /// Whether the byte `b` belongs to the class.
    pub open spec fn has(self, b: u8) -> bool {
        match self {
            ByteClass::Blank => blank(b),
            ByteClass::Letter => letter(b),
            ByteClass::Digit => digit(b),
        }
    }
}

/// The byte at index `i`, or 0 where `i` is outside the text.
pub open spec fn byte_at(bytes: Seq<u8>, i: int) -> u8 {
    if 0 <= i < bytes.len() {
        bytes[i]
    } else {
        0
    }
}

/// The end of the maximal run of bytes of `class` that starts at `pos`.
pub open spec fn span_end(bytes: Seq<u8>, pos: int, class: ByteClass) -> int
    decreases bytes.len() - pos,
{
    if 0 <= pos < bytes.len() && class.has(bytes[pos]) {
        span_end(bytes, pos + 1, class)
    } else {
        pos
    }
}

/// The characters that a run of bytes stands for, one character per byte.
pub open spec fn byte_chars(bytes: Seq<u8>) -> Seq<char> {
    Seq::new(bytes.len(), |i: int| bytes[i] as char)
}

/// A token of a category whose text is fixed.
pub open spec fn fixed(kind: TokenType) -> TokenView {
    TokenView { kind, literal: kind.symbol_text() }
}

/// What one scanning step yields: the token, and the cursor after it.
pub struct Scanned {
    pub token: TokenView,
    pub end: int,
}

/// The token that starts at `p`, where `p` is not on a blank: the
/// end-of-input token where the text has ended, and otherwise the token
/// that the byte at `p` begins. A byte that begins none is a token of its
/// own, an illegal one.
pub open spec fn scan_token(bytes: Seq<u8>, p: int) -> Scanned {
    let c = byte_at(bytes, p);
    let follows = byte_at(bytes, p + 1) == 61;
    if p >= bytes.len() {
        Scanned { token: TokenView { kind: TokenType::Eof, literal: Seq::empty() }, end: p }
    } else if c == 61 {
        if follows {
            Scanned { token: fixed(TokenType::Eq), end: p + 2 }
        } else {
            Scanned { token: fixed(TokenType::Assign), end: p + 1 }
        }
    } else if c == 59 {
        Scanned { token: fixed(TokenType::Semicolon), end: p + 1 }
    } else if c == 40 {
        Scanned { token: fixed(TokenType::Lparen), end: p + 1 }
    } else if c == 41 {
        Scanned { token: fixed(TokenType::Rparen), end: p + 1 }
    } else if c == 123 {
        Scanned { token: fixed(TokenType::Lbrace), end: p + 1 }
    } else if c == 125 {
        Scanned { token: fixed(TokenType::Rbrace), end: p + 1 }
    } else if c == 44 {
        Scanned { token: fixed(TokenType::Comma), end: p + 1 }
    } else if c == 43 {
        Scanned { token: fixed(TokenType::Plus), end: p + 1 }
    } else if c == 45 {
        Scanned { token: fixed(TokenType::Minus), end: p + 1 }
    } else if c == 47 {
        Scanned { token: fixed(TokenType::Slash), end: p + 1 }
    } else if c == 42 {
        Scanned { token: fixed(TokenType::Asterisk), end: p + 1 }
    } else if c == 60 {
        if follows {
            Scanned { token: fixed(TokenType::Le), end: p + 2 }
        } else {
            Scanned { token: fixed(TokenType::Lt), end: p + 1 }
        }
    } else if c == 62 {
        if follows {
            Scanned { token: fixed(TokenType::Ge), end: p + 2 }
        } else {
            Scanned { token: fixed(TokenType::Gt), end: p + 1 }
        }
    } else if c == 33 {
        if follows {
            Scanned { token: fixed(TokenType::NotEq), end: p + 2 }
        } else {
            Scanned { token: fixed(TokenType::Bang), end: p + 1 }
        }
    } else if letter(c) {
        let end = span_end(bytes, p, ByteClass::Letter);
        let word = byte_chars(bytes.subrange(p, end));
        Scanned { token: TokenView { kind: keyword_or_ident(word), literal: word }, end }
    } else if digit(c) {
        let end = span_end(bytes, p, ByteClass::Digit);
        Scanned {
            token: TokenView {
                kind: TokenType::Int,
                literal: byte_chars(bytes.subrange(p, end)),
            },
            end,
        }
    } else {
        Scanned {
            token: TokenView { kind: TokenType::Illegal, literal: seq![c as char] },
            end: p + 1,
        }
    }
}

/// One step of the tokenizer from cursor `pos`: blanks are skipped, then
/// one token is read.
#[verifier::opaque]
pub open spec fn scan(bytes: Seq<u8>, pos: int) -> Scanned {
    scan_token(bytes, span_end(bytes, pos, ByteClass::Blank))
}

/// Nothing but blanks stands between `pos` and the end of the text.
pub open spec fn only_blanks(bytes: Seq<u8>, pos: int) -> bool {
    forall|k: int| pos <= k < bytes.len() ==> blank(#[trigger] bytes[k])
}

/// Whether `ch` is an ASCII letter or the underscore.
pub fn is_letter(ch: u8) -> (r: bool)
    ensures
        r == letter(ch),
{
    97 <= ch && ch <= 122 || 65 <= ch && ch <= 90 || ch == 95
}

/// Whether `ch` is an ASCII decimal digit.
pub fn is_digital(ch: u8) -> (r: bool)
    ensures
        r == digit(ch),
{
    48 <= ch && ch <= 57
}

/// A run never ends before it starts, nor beyond the text, and it stops on
/// a byte outside the class.
pub proof fn lemma_span_end(bytes: Seq<u8>, pos: int, class: ByteClass)
    requires
        0 <= pos <= bytes.len(),
    ensures
        pos <= span_end(bytes, pos, class) <= bytes.len(),
        !class.has(byte_at(bytes, span_end(bytes, pos, class))),
        forall|k: int| pos <= k < span_end(bytes, pos, class) ==> class.has(#[trigger] bytes[k]),
    decreases bytes.len() - pos,
{
    if pos < bytes.len() && class.has(bytes[pos]) {
        lemma_span_end(bytes, pos + 1, class);
    }
}

/// A scanning step yields the end-of-input token if and only if nothing
/// but blanks is left; the token then has no text and the cursor is at the
/// end.
pub proof fn lemma_eof_iff_only_blanks(bytes: Seq<u8>, pos: int)
    requires
        0 <= pos <= bytes.len(),
    ensures
        scan(bytes, pos).token.kind == TokenType::Eof <==> only_blanks(bytes, pos),
        scan(bytes, pos).token.kind == TokenType::Eof ==> scan(bytes, pos).token.literal
            == Seq::<char>::empty() && scan(bytes, pos).end == bytes.len(),
{
    reveal(scan);
    let q = span_end(bytes, pos, ByteClass::Blank);
    lemma_span_end(bytes, pos, ByteClass::Blank);
    if q < bytes.len() {
        assert(!blank(bytes[q]));
    }
}

/// A run that is entered in the middle ends where the whole run ends.
pub proof fn lemma_span_end_from_inside(bytes: Seq<u8>, pos: int, mid: int, class: ByteClass)
    requires
        0 <= pos <= mid <= bytes.len(),
        forall|k: int| pos <= k < mid ==> class.has(#[trigger] bytes[k]),
    ensures
        span_end(bytes, pos, class) == span_end(bytes, mid, class),
    decreases mid - pos,
{
    if pos < mid {
        lemma_span_end_from_inside(bytes, pos + 1, mid, class);
    }
}

/// The tokenizer state: the source text, the cursor, the index after it and
/// the byte under the cursor (0 at the end of the text).
#[derive(Debug)]
pub struct Lexer {
    pub input: String,
    pub position: usize,
    pub read_position: usize,
    pub ch: u8,
}

impl Clone for Lexer {
    fn clone(&self) -> (copy: Lexer)
        ensures
            copy == *self,
    {
        Lexer {
            input: self.input.clone(),
            position: self.position,
            read_position: self.read_position,
            ch: self.ch,
        }
    }
}

impl Lexer {
    /// The source text as bytes.
    pub open spec fn source(&self) -> Seq<u8> {
        encode_utf8(self.input@)
    }

    /// The cursor lies within the text or at its end, `read_position` is
    /// the next index (or the end), and `ch` caches the byte under the cursor.
    pub open spec fn wf(&self) -> bool {
        &&& self.position <= self.source().len()
        &&& self.read_position == if self.position < self.source().len() {
            self.position + 1
        } else {
            self.position as int
        }
        &&& self.ch == byte_at(self.source(), self.position as int)
    }

    /// Whether the state is well-formed. A tokenizer made by `new` and moved
    /// by its methods always is.
    pub fn is_well_formed(&self) -> (r: bool)
        ensures
            r == self.wf(),
    {
        let bytes = self.input.as_str().as_bytes();
        let n = bytes.len();
        if self.position < n {
            self.read_position == self.position + 1 && self.ch == bytes[self.position]
        } else {
            self.position == n && self.read_position == n && self.ch == 0
        }
    }

    /// A tokenizer at the start of `input`.
    pub fn new(input: &str) -> (l: Lexer)
        ensures
            l.wf(),
            l.input@ == input@,
            l.position == 0,
    {
        let mut l = Lexer { input: input.to_owned(), position: 0, read_position: 0, ch: 0 };
        l.read_char();
        l
    }

    /// Moves the cursor to `read_position`, but never beyond the end of the
    /// text, and loads the byte there.
    pub fn read_char(&mut self)
        ensures
            final(self).wf(),
            final(self).input == old(self).input,
            final(self).position == if old(self).read_position < old(self).source().len() {
                old(self).read_position as int
            } else {
                old(self).source().len() as int
            },
    {
        let bytes = self.input.as_str().as_bytes();
        let n = bytes.len();
        if self.read_position >= n {
            self.ch = 0;
            self.position = n;
            self.read_position = n;
        } else {
            self.ch = bytes[self.read_position];
            self.position = self.read_position;
            self.read_position = self.read_position + 1;
        }
    }

    /// The byte after the cursor, or 0 at the end of the text.
    pub fn peek_char(&mut self) -> (ch: u8)
        ensures
            *final(self) == *old(self),
            ch == byte_at(old(self).source(), old(self).read_position as int),
    {
        let bytes = self.input.as_str().as_bytes();
        if self.read_position >= bytes.len() {
            0
        } else {
            bytes[self.read_position]
        }
    }

    /// Skips the blanks under the cursor.
    pub fn skip_whitespace(&mut self)
        requires
            old(self).wf(),
        ensures
            final(self).wf(),
            final(self).input == old(self).input,
            final(self).position == span_end(
                old(self).source(),
                old(self).position as int,
                ByteClass::Blank,
            ),
    {
        proof {
            lemma_span_end(self.source(), self.position as int, ByteClass::Blank);
        }
        while self.ch == 32 || self.ch == 9 || self.ch == 10 || self.ch == 13
            invariant
                self.wf(),
                self.input == old(self).input,
                old(self).position <= self.position,
                span_end(self.source(), self.position as int, ByteClass::Blank) == span_end(
                    old(self).source(),
                    old(self).position as int,
                    ByteClass::Blank,
                ),
            decreases self.source().len() - self.position,
        {
            self.read_char();
        }
    }
    /// Reads the maximal run of letters under the cursor.
    pub fn read_identifier(&mut self) -> (word: String)
        requires
            old(self).wf(),
        ensures
            final(self).wf(),
            final(self).input == old(self).input,
            final(self).position == span_end(
                old(self).source(),
                old(self).position as int,
                ByteClass::Letter,
            ),
            word@ == byte_chars(
                old(self).source().subrange(old(self).position as int, final(self).position as int),
            ),
    {
        let mut word = String::new();
        assert(word@ =~= byte_chars(
            self.source().subrange(self.position as int, self.position as int),
        ));
        while is_letter(self.ch)
            invariant
                self.wf(),
                self.input == old(self).input,
                old(self).position <= self.position,
                forall|k: int|
                    old(self).position <= k < self.position ==> letter(#[trigger] self.source()[k]),
                word@ == byte_chars(
                    self.source().subrange(old(self).position as int, self.position as int),
                ),
            decreases self.source().len() - self.position,
        {
            push_char(&mut word, self.ch as char);
            self.read_char();
            assert(word@ =~= byte_chars(
                self.source().subrange(old(self).position as int, self.position as int),
            ));
        }
        proof {
            lemma_span_end_from_inside(
                self.source(),
                old(self).position as int,
                self.position as int,
                ByteClass::Letter,
            );
        }
        word
    }

    /// Reads the maximal run of decimal digits under the cursor.
    pub fn read_number(&mut self) -> (digits: String)
        requires
            old(self).wf(),
        ensures
            final(self).wf(),
            final(self).input == old(self).input,
            final(self).position == span_end(
                old(self).source(),
                old(self).position as int,
                ByteClass::Digit,
            ),
            digits@ == byte_chars(
                old(self).source().subrange(old(self).position as int, final(self).position as int),
            ),
    {
        let mut digits = String::new();
        assert(digits@ =~= byte_chars(
            self.source().subrange(self.position as int, self.position as int),
        ));
        while is_digital(self.ch)
            invariant
                self.wf(),
                self.input == old(self).input,
                old(self).position <= self.position,
                forall|k: int|
                    old(self).position <= k < self.position ==> digit(#[trigger] self.source()[k]),
                digits@ == byte_chars(
                    self.source().subrange(old(self).position as int, self.position as int),
                ),
            decreases self.source().len() - self.position,
        {
            push_char(&mut digits, self.ch as char);
            self.read_char();
            assert(digits@ =~= byte_chars(
                self.source().subrange(old(self).position as int, self.position as int),
            ));
        }
        proof {
            lemma_span_end_from_inside(
                self.source(),
                old(self).position as int,
                self.position as int,
                ByteClass::Digit,
            );
        }
        digits
    }

    /// The token of a one-byte operator or delimiter, or of the two-byte
    /// operator that an `=` after it completes.
    fn operator(&mut self, single: TokenType, double: Option<TokenType>) -> (token: Token)
        requires
            old(self).wf(),
            old(self).position < old(self).source().len(),
        ensures
            final(self).wf(),
            final(self).input == old(self).input,
            token@ == fixed(
                if double is Some && byte_at(old(self).source(), old(self).position + 1) == 61 {
                    double->0
                } else {
                    single
                },
            ),
            final(self).position == if double is Some && byte_at(
                old(self).source(),
                old(self).position + 1,
            ) == 61 {
                old(self).position + 2
            } else {
                old(self).position + 1
            },
    {
        let kind = match double {
            Some(kind) => {
                if self.peek_char() == 61 {
                    self.read_char();
                    kind
                } else {
                    single
                }
            },
            None => single,
        };
        self.read_char();
        Token::new_with_string(kind, kind.symbol().to_owned())
    }

    /// Skips blanks, reads one token and leaves the cursor after it. The
    /// token is `Eof` exactly when nothing but blanks was left; at the end
    /// of the text the cursor stays where it is.
    pub fn next_token(&mut self) -> (token: Token)
        requires
            old(self).wf(),
        ensures
            final(self).wf(),
            final(self).input == old(self).input,
            token@ == scan(old(self).source(), old(self).position as int).token,
            final(self).position == scan(old(self).source(), old(self).position as int).end,
            token.token_type == TokenType::Eof <==> only_blanks(
                old(self).source(),
                old(self).position as int,
            ),
            old(self).position == old(self).source().len() ==> token@ == (TokenView {
                kind: TokenType::Eof,
                literal: Seq::empty(),
            }) && final(self).position == old(self).position,
    {
        proof {
            lemma_eof_iff_only_blanks(self.source(), self.position as int);
        }
        reveal(scan);
        self.skip_whitespace();
        let c = self.ch;
        if self.position >= self.input.as_str().as_bytes().len() {
            Token::new_with_string(TokenType::Eof, String::new())
        } else if c == 61 {
            self.operator(TokenType::Assign, Some(TokenType::Eq))
        } else if c == 59 {
            self.operator(TokenType::Semicolon, None)
        } else if c == 40 {
            self.operator(TokenType::Lparen, None)
        } else if c == 41 {
            self.operator(TokenType::Rparen, None)
        } else if c == 123 {
            self.operator(TokenType::Lbrace, None)
        } else if c == 125 {
            self.operator(TokenType::Rbrace, None)
        } else if c == 44 {
            self.operator(TokenType::Comma, None)
        } else if c == 43 {
            self.operator(TokenType::Plus, None)
        } else if c == 45 {
            self.operator(TokenType::Minus, None)
        } else if c == 47 {
            self.operator(TokenType::Slash, None)
        } else if c == 42 {
            self.operator(TokenType::Asterisk, None)
        } else if c == 60 {
            self.operator(TokenType::Lt, Some(TokenType::Le))
        } else if c == 62 {
            self.operator(TokenType::Gt, Some(TokenType::Ge))
        } else if c == 33 {
            self.operator(TokenType::Bang, Some(TokenType::NotEq))
        } else if is_letter(c) {
            let word = self.read_identifier();
            let kind = lookup_ident(word.clone());
            Token::new_with_string(kind, word)
        } else if is_digital(c) {
            let digits = self.read_number();
            Token::new_with_string(TokenType::Int, digits)
        } else {
            self.read_char();
            Token::new_with_char(TokenType::Illegal, c as char)
        }
    }

    /// The next token, or `None` once nothing but blanks is left.
    pub fn next(&mut self) -> (item: Option<Token>)
        requires
            old(self).wf(),
        ensures
            final(self).wf(),
            final(self).input == old(self).input,
            final(self).position == scan(old(self).source(), old(self).position as int).end,
            match item {
                Some(token) => token@ == scan(old(self).source(), old(self).position as int).token
                    && token.token_type != TokenType::Eof,
                None => scan(old(self).source(), old(self).position as int).token.kind
                    == TokenType::Eof,
            },
            item is None <==> only_blanks(old(self).source(), old(self).position as int),
    {
        let token = self.next_token();
        if token.token_type == TokenType::Eof {
            None
        } else {
            Some(token)
        }
    }
}

} // verus!
