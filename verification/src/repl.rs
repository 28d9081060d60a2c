//! What the interactive prompt decides about a line of input: whether its
//! brackets are balanced, which brackets lack a partner, and how each piece
//! of the line is to be shaded.

use std::collections::HashSet;
use vstd::prelude::*;
use vstd::std_specs::iter::IteratorSpec;
use vstd::string::*;
use crate::text::{is_digit_char, push_char};
use crate::token::{keyword_or_ident, lookup_ident, TokenType};

verus! {

broadcast use {vstd::std_specs::hash::group_hash_axioms, vstd::string::group_string_axioms};

/// The characters of `s`.
pub fn chars_of(s: &str) -> (chars: Vec<char>)
    ensures
        chars@ == s@,
{
    let mut rest = s.chars();
    let mut chars: Vec<char> = Vec::new();
    assert(chars@ + rest.remaining() =~= s@);
    loop
        invariant
            chars@ + rest.remaining() == s@,
            rest.decrease() is Some,
        decreases rest.decrease()->0,
    {
        match rest.next() {
            Some(c) => {
                chars.push(c);
                assert(chars@ + rest.remaining() =~= s@);
            },
            None => {
                assert(chars@ =~= s@);
                return chars;
            },
        }
    }
}

/// The string of the characters of `chars` from `from` up to `to`.
pub fn string_of(chars: &Vec<char>, from: usize, to: usize) -> (text: String)
    requires
        from <= to <= chars@.len(),
    ensures
        text@ == chars@.subrange(from as int, to as int),
{
    let mut text = String::new();
    let mut i: usize = from;
    while i < to
        invariant
            from <= i <= to <= chars@.len(),
            text@ == chars@.subrange(from as int, i as int),
        decreases to - i,
    {
        push_char(&mut text, chars[i]);
        i += 1;
    }
    text
}

/// The punctuation that is shaded as a symbol.
pub open spec fn symbol_char(c: char) -> bool {
    c == '(' || c == ')' || c == '{' || c == '}' || c == '[' || c == ']' || c == ',' || c == ':'
        || c == ';' || c == '=' || c == '+' || c == '-' || c == '*' || c == '/' || c == '%'
        || c == '!' || c == '<' || c == '>' || c == '|' || c == '&' || c == '^'
}

/// Whether `c` is punctuation that is shaded as a symbol.
pub fn is_sym(c: char) -> (r: bool)
    ensures
        r == symbol_char(c),
{
    c == '(' || c == ')' || c == '{' || c == '}' || c == '[' || c == ']' || c == ',' || c == ':'
        || c == ';' || c == '=' || c == '+' || c == '-' || c == '*' || c == '/' || c == '%'
        || c == '!' || c == '<' || c == '>' || c == '|' || c == '&' || c == '^'
}

/// A quotation mark, single or double.
pub open spec fn quote_char(c: char) -> bool {
    c == '"' || c == '\''
}

/// An opening bracket.
pub open spec fn opener(c: char) -> bool {
    c == '(' || c == '{' || c == '['
}

/// A closing bracket.
pub open spec fn closer(c: char) -> bool {
    c == ')' || c == '}' || c == ']'
}

/// Whether `open` and `close` are the two halves of one kind of bracket.
pub open spec fn pairs(open: char, close: char) -> bool {
    (open == '(' && close == ')') || (open == '{' && close == '}') || (open == '[' && close
        == ']')
}

/// ASCII white space: space, tab, line feed, form feed, carriage return.
pub open spec fn space_char(c: char) -> bool {
    c == ' ' || c == '\t' || c == '\n' || c == '\x0C' || c == '\r'
}

/// The quotation mark that is open after the first `n` characters of
/// `chars`, if one is: a string runs from a quotation mark to the next mark
/// of the same kind.
pub open spec fn open_quote(chars: Seq<char>, n: nat) -> Option<char>
    decreases n,
{
    if n == 0 || n > chars.len() {
        None
    } else {
        let c = chars[n - 1];
        match open_quote(chars, (n - 1) as nat) {
            Some(mark) => if c == mark {
                None
            } else {
                Some(mark)
            },
            None => if quote_char(c) {
                Some(c)
            } else {
                None
            },
        }
    }
}

/// Whether the character at index `i` belongs to a string, its quotation
/// marks included.
pub open spec fn in_string(chars: Seq<char>, i: int) -> bool {
    0 <= i < chars.len() && (open_quote(chars, i as nat) is Some || quote_char(chars[i]))
}

/// The index at which a `//` comment starts at or after `from`; the length
/// of `chars` if there is none.
pub open spec fn comment_start(chars: Seq<char>, from: int) -> int
    decreases chars.len() - from,
{
    if from < 0 || from + 1 >= chars.len() {
        chars.len() as int
    } else if chars[from] == '/' && chars[from + 1] == '/' {
        from
    } else {
        comment_start(chars, from + 1)
    }
}

/// Finds the `//` that starts a comment.
pub fn find_comment(chars: &Vec<char>) -> (found: Option<usize>)
    ensures
        match found {
            Some(i) => i < chars@.len() && i == comment_start(chars@, 0),
            None => comment_start(chars@, 0) == chars@.len(),
        },
{
    let n = chars.len();
    let mut i: usize = 0;
    while i < n && i + 1 < n
        invariant
            n == chars@.len(),
            i <= n,
            comment_start(chars@, 0) == comment_start(chars@, i as int),
        decreases n - i,
    {
        if chars[i] == '/' && chars[i + 1] == '/' {
            return Some(i);
        }
        i += 1;
    }
    None
}

/// The net count of one kind of bracket, and the brackets outside strings
/// among the first `n` characters: each `open` counts 1, each `close` -1.
pub open spec fn depth(chars: Seq<char>, n: nat, open: char, close: char) -> int
    decreases n,
{
    if n == 0 || n > chars.len() {
        0
    } else {
        let before = depth(chars, (n - 1) as nat, open, close);
        let c = chars[n - 1];
        if in_string(chars, n - 1) {
            before
        } else if c == open {
            before + 1
        } else if c == close {
            before - 1
        } else {
            before
        }
    }
}

/// A text is balanced when it opens as many brackets of each kind as it
/// closes, strings aside, and leaves no string open.
pub open spec fn balanced(chars: Seq<char>) -> bool {
    &&& depth(chars, chars.len(), '(', ')') == 0
    &&& depth(chars, chars.len(), '{', '}') == 0
    &&& depth(chars, chars.len(), '[', ']') == 0
    &&& open_quote(chars, chars.len()) is None
}

/// Whether the brackets of `s` are balanced and no string is left open.
pub fn is_balanced(s: &str) -> (r: bool)
    ensures
        r == balanced(s@),
{
    let chars = chars_of(s);
    let n = chars.len();
    let mut round: i128 = 0;
    let mut curly: i128 = 0;
    let mut square: i128 = 0;
    let mut delim: Option<char> = None;
    let mut i: usize = 0;
    while i < n
        invariant
            n == chars@.len(),
            i <= n,
            delim == open_quote(chars@, i as nat),
            round == depth(chars@, i as nat, '(', ')'),
            curly == depth(chars@, i as nat, '{', '}'),
            square == depth(chars@, i as nat, '[', ']'),
            -(i as int) <= round <= i,
            -(i as int) <= curly <= i,
            -(i as int) <= square <= i,
        decreases n - i,
    {
        let ch = chars[i];
        match delim {
            Some(mark) => {
                if ch == mark {
                    delim = None;
                }
            },
            None => {
                if ch == '"' || ch == '\'' {
                    delim = Some(ch);
                } else if ch == '(' {
                    round += 1;
                } else if ch == ')' {
                    round -= 1;
                } else if ch == '{' {
                    curly += 1;
                } else if ch == '}' {
                    curly -= 1;
                } else if ch == '[' {
                    square += 1;
                } else if ch == ']' {
                    square -= 1;
                }
            },
        }
        i += 1;
    }
    round == 0 && curly == 0 && square == 0 && delim.is_none()
}

/// How far the scan for brackets without a partner has come: the opening
/// brackets that wait for their partner, innermost last, each with its
/// index, and the indices found to have none.
pub struct BracketState {
    pub stack: Seq<(char, usize)>,
    pub unmatched: Set<usize>,
}

/// The scan over the first `n` characters. A closing bracket meets the
/// innermost waiting bracket: of the same kind, the two are partners; of
/// another kind, neither has one. A closing bracket that nothing waits for
/// has none.
pub open spec fn bracket_scan(chars: Seq<char>, n: nat) -> BracketState
    decreases n,
{
    if n == 0 || n > chars.len() {
        BracketState { stack: Seq::empty(), unmatched: Set::empty() }
    } else {
        let before = bracket_scan(chars, (n - 1) as nat);
        let c = chars[n - 1];
        let i = (n - 1) as usize;
        if in_string(chars, n - 1) {
            before
        } else if opener(c) {
            BracketState { stack: before.stack.push((c, i)), unmatched: before.unmatched }
        } else if closer(c) {
            if before.stack.len() == 0 {
                BracketState { stack: before.stack, unmatched: before.unmatched.insert(i) }
            } else if pairs(before.stack.last().0, c) {
                BracketState { stack: before.stack.drop_last(), unmatched: before.unmatched }
            } else {
                BracketState {
                    stack: before.stack.drop_last(),
                    unmatched: before.unmatched.insert(before.stack.last().1).insert(i),
                }
            }
        } else {
            before
        }
    }
}

/// The indices of the first `n` waiting brackets.
pub open spec fn waiting(stack: Seq<(char, usize)>, n: nat) -> Set<usize>
    decreases n,
{
    if n == 0 || n > stack.len() {
        Set::empty()
    } else {
        waiting(stack, (n - 1) as nat).insert(stack[n - 1].1)
    }
}

/// The indices of the brackets of `chars` that have no partner: strings
/// and a trailing `//` comment are not looked at.
pub open spec fn unmatched_brackets(chars: Seq<char>) -> Set<usize> {
    let code = chars.subrange(0, comment_start(chars, 0));
    let end = bracket_scan(code, code.len());
    end.unmatched.union(waiting(end.stack, end.stack.len()))
}

/// A comment starts inside the text or at its end.
pub proof fn lemma_comment_start(chars: Seq<char>, from: int)
    requires
        0 <= from <= chars.len(),
    ensures
        from <= comment_start(chars, from) <= chars.len(),
    decreases chars.len() - from,
{
    if from + 1 < chars.len() && !(chars[from] == '/' && chars[from + 1] == '/') {
        lemma_comment_start(chars, from + 1);
    }
}

/// Finds the brackets of `s` that have no partner.
pub fn find_unmatched_brackets(s: &str) -> (unmatched: HashSet<usize>)
    ensures
        unmatched@ == unmatched_brackets(s@),
{
    let mut chars = chars_of(s);
    proof {
        lemma_comment_start(chars@, 0);
    }
    match find_comment(&chars) {
        Some(i) => {
            chars.truncate(i);
        },
        None => {
            assert(chars@ =~= chars@.subrange(0, chars@.len() as int));
        },
    }
    let n = chars.len();
    let mut unmatched: HashSet<usize> = HashSet::new();
    let mut stack: Vec<(char, usize)> = Vec::new();
    let mut delim: Option<char> = None;
    let mut i: usize = 0;
    while i < n
        invariant
            n == chars@.len(),
            i <= n,
            delim == open_quote(chars@, i as nat),
            stack@ == bracket_scan(chars@, i as nat).stack,
            unmatched@ == bracket_scan(chars@, i as nat).unmatched,
        decreases n - i,
    {
        let ch = chars[i];
        match delim {
            Some(mark) => {
                if ch == mark {
                    delim = None;
                }
            },
            None => {
                if ch == '"' || ch == '\'' {
                    delim = Some(ch);
                } else if ch == '(' || ch == '{' || ch == '[' {
                    stack.push((ch, i));
                } else if ch == ')' || ch == '}' || ch == ']' {
                    match stack.pop() {
                        Some((open, open_idx)) => {
                            let partners = (open == '(' && ch == ')') || (open == '{' && ch == '}')
                                || (open == '[' && ch == ']');
                            if !partners {
                                unmatched.insert(open_idx);
                                unmatched.insert(i);
                            }
                        },
                        None => {
                            unmatched.insert(i);
                        },
                    }
                }
            },
        }
        i += 1;
    }
    let ghost scanned = unmatched@;
    let mut k: usize = 0;
    while k < stack.len()
        invariant
            k <= stack@.len(),
            unmatched@ == scanned.union(waiting(stack@, k as nat)),
        decreases stack@.len() - k,
    {
        let entry = stack[k];
        unmatched.insert(entry.1);
        k += 1;
    }
    unmatched
}

/// How a piece of a line is to be shown.
#[derive(Debug, Clone, Copy, PartialEq, Eq, Structural)]
pub enum Shade {
    Keyword,
    String,
    Number,
    Comment,
    Symbol,
    Default,
    Unmatched,
}

/// A piece of a line and its shade, as a mathematical value.
pub struct SpanView {
    pub shade: Shade,
    pub text: Seq<char>,
}

/// A piece of a line and its shade.
#[derive(Debug)]
pub struct Span {
    pub shade: Shade,
    pub text: String,
}

impl View for Span {
    type V = SpanView;

    open spec fn view(&self) -> SpanView {
        SpanView { shade: self.shade, text: self.text@ }
    }
}

/// The views of the spans of `spans`.
pub open spec fn span_views(spans: Seq<Span>) -> Seq<SpanView> {
    Seq::new(spans.len(), |i: int| spans[i]@)
}

/// The shade of a word: a number if it consists of digits, a keyword if it
/// is one, and plain otherwise.
pub open spec fn word_shade(word: Seq<char>) -> Shade {
    if forall|i: int| 0 <= i < word.len() ==> is_digit_char(#[trigger] word[i]) {
        Shade::Number
    } else if keyword_or_ident(word) != TokenType::Ident {
        Shade::Keyword
    } else {
        Shade::Default
    }
}

/// The spans with the word added, unless the word is empty.
pub open spec fn flush_word(out: Seq<SpanView>, word: Seq<char>) -> Seq<SpanView> {
    if word.len() == 0 {
        out
    } else {
        out.push(SpanView { shade: word_shade(word), text: word })
    }
}

fn push_span(out: &mut Vec<Span>, shade: Shade, text: String)
    ensures
        span_views(final(out)@) == span_views(old(out)@).push(SpanView { shade, text: text@ }),
{
    out.push(Span { shade, text });
}

/// Adds the word `tok` to `out` with its shade; an empty word adds nothing.
pub fn flush_word_token(tok: &str, out: &mut Vec<Span>)
    ensures
        span_views(final(out)@) == flush_word(span_views(old(out)@), tok@),
{
    let chars = chars_of(tok);
    if chars.len() == 0 {
        return ;
    }
    let mut i: usize = 0;
    let mut digits = true;
    while digits && i < chars.len()
        invariant
            i <= chars@.len(),
            forall|k: int| 0 <= k < i ==> is_digit_char(#[trigger] chars@[k]),
            !digits ==> i < chars@.len() && !is_digit_char(chars@[i as int]),
        decreases chars@.len() - i + if digits { 1int } else { 0int },
    {
        let c = chars[i];
        if '0' <= c && c <= '9' {
            i += 1;
        } else {
            digits = false;
        }
    }
    let shade = if digits {
        Shade::Number
    } else {
        match lookup_ident(tok.to_owned()) {
            TokenType::Ident => Shade::Default,
            _ => Shade::Keyword,
        }
    };
    push_span(out, shade, tok.to_owned());
}

/// How far the shading of a line has come: the spans made, the word or
/// string being gathered, and the string that is open, if one is.
pub struct PaintState {
    pub out: Seq<SpanView>,
    pub buf: Seq<char>,
    pub in_string: bool,
    pub delim: Option<char>,
}

/// The state before anything is shaded.
pub open spec fn blank_state() -> PaintState {
    PaintState { out: Seq::empty(), buf: Seq::empty(), in_string: false, delim: None }
}

/// What one character does to the state. Inside a string every character
/// is gathered and the closing mark ends the string. Outside, a quotation
/// mark opens a string, and white space and symbols each make a span of
/// their own; all three end the word before them. A bracket whose index is
/// in `unmatched` is shaded as such. Any other character joins the word.
pub open spec fn paint_step(state: PaintState, ch: char, idx: usize, unmatched: Set<usize>) -> PaintState {
    if state.in_string {
        let text = state.buf.push(ch);
        if state.delim == Some(ch) {
            PaintState {
                out: state.out.push(SpanView { shade: Shade::String, text }),
                buf: Seq::empty(),
                in_string: false,
                delim: None,
            }
        } else {
            PaintState { buf: text, ..state }
        }
    } else if quote_char(ch) {
        PaintState {
            out: flush_word(state.out, state.buf),
            buf: seq![ch],
            in_string: true,
            delim: Some(ch),
        }
    } else if space_char(ch) {
        PaintState {
            out: flush_word(state.out, state.buf).push(
                SpanView { shade: Shade::Default, text: seq![ch] },
            ),
            buf: Seq::empty(),
            ..state
        }
    } else if symbol_char(ch) {
        let shade = if (opener(ch) || closer(ch)) && unmatched.contains(idx) {
            Shade::Unmatched
        } else {
            Shade::Symbol
        };
        PaintState {
            out: flush_word(state.out, state.buf).push(SpanView { shade, text: seq![ch] }),
            buf: Seq::empty(),
            ..state
        }
    } else {
        PaintState { buf: state.buf.push(ch), ..state }
    }
}

/// The state after the first `n` characters of `chars`, from `start`.
pub open spec fn paint(chars: Seq<char>, n: nat, start: PaintState, unmatched: Set<usize>) -> PaintState
    decreases n,
{
    if n == 0 || n > chars.len() {
        start
    } else {
        paint_step(
            paint(chars, (n - 1) as nat, start, unmatched),
            chars[n - 1],
            (n - 1) as usize,
            unmatched,
        )
    }
}

/// The state after what was gathered is made a span: a string if one is
/// open, a word otherwise.
pub open spec fn paint_end(state: PaintState) -> PaintState {
    if state.buf.len() == 0 {
        state
    } else if state.in_string {
        PaintState {
            out: state.out.push(SpanView { shade: Shade::String, text: state.buf }),
            buf: Seq::empty(),
            ..state
        }
    } else {
        PaintState { out: flush_word(state.out, state.buf), buf: Seq::empty(), ..state }
    }
}

fn single(ch: char) -> (text: String)
    ensures
        text@ == seq![ch],
{
    let mut text = String::new();
    push_char(&mut text, ch);
    text
}

fn same_mark(delim: &Option<char>, ch: char) -> (r: bool)
    ensures
        r == (*delim == Some(ch)),
{
    match delim {
        Some(mark) => *mark == ch,
        None => false,
    }
}

/// Shades the code of `s`, going on from the state that the four `&mut`
/// parameters hold, and makes a span of what is gathered at the end.
pub fn flush_code_segment(
    s: &str,
    out: &mut Vec<Span>,
    buf: &mut String,
    in_string: &mut bool,
    string_delim: &mut Option<char>,
    unmatched: &HashSet<usize>,
)
    ensures
        (PaintState {
            out: span_views(final(out)@),
            buf: final(buf)@,
            in_string: *final(in_string),
            delim: *final(string_delim),
        }) == paint_end(
            paint(
                s@,
                s@.len(),
                PaintState {
                    out: span_views(old(out)@),
                    buf: old(buf)@,
                    in_string: *old(in_string),
                    delim: *old(string_delim),
                },
                unmatched@,
            ),
        ),
{
    let chars = chars_of(s);
    let ghost start = PaintState {
        out: span_views(out@),
        buf: buf@,
        in_string: *in_string,
        delim: *string_delim,
    };
    let mut idx: usize = 0;
    while idx < chars.len()
        invariant
            idx <= chars@.len(),
            (PaintState {
                out: span_views(out@),
                buf: buf@,
                in_string: *in_string,
                delim: *string_delim,
            }) == paint(chars@, idx as nat, start, unmatched@),
        decreases chars@.len() - idx,
    {
        let ch = chars[idx];
        if *in_string {
            push_char(buf, ch);
            if same_mark(string_delim, ch) {
                push_span(out, Shade::String, buf.clone());
                *buf = String::new();
                *in_string = false;
                *string_delim = None;
            }
        } else if ch == '\'' || ch == '"' {
            flush_word_token(buf.as_str(), out);
            *buf = single(ch);
            *in_string = true;
            *string_delim = Some(ch);
        } else if ch == ' ' || ch == '\t' || ch == '\n' || ch == '\x0C' || ch == '\r' {
            flush_word_token(buf.as_str(), out);
            *buf = String::new();
            push_span(out, Shade::Default, single(ch));
        } else if is_sym(ch) {
            flush_word_token(buf.as_str(), out);
            *buf = String::new();
            let bracket = ch == '(' || ch == ')' || ch == '{' || ch == '}' || ch == '[' || ch
                == ']';
            let shade = if bracket && unmatched.contains(&idx) {
                Shade::Unmatched
            } else {
                Shade::Symbol
            };
            push_span(out, shade, single(ch));
        } else {
            push_char(buf, ch);
        }
        idx += 1;
    }
    if chars_of(buf.as_str()).len() > 0 {
        if *in_string {
            push_span(out, Shade::String, buf.clone());
        } else {
            flush_word_token(buf.as_str(), out);
        }
        *buf = String::new();
    }
}

/// The spans of a line: its code shaded piece by piece, then the `//`
/// comment that ends it, if there is one, as one span.
pub open spec fn highlighted(line: Seq<char>) -> Seq<SpanView> {
    let cut = comment_start(line, 0);
    let code = line.subrange(0, cut);
    let shaded = paint_end(paint(code, code.len(), blank_state(), unmatched_brackets(line))).out;
    if cut < line.len() {
        shaded.push(SpanView { shade: Shade::Comment, text: line.subrange(cut, line.len() as int) })
    } else {
        shaded
    }
}

/// Shades a line of input. The cursor's place has no part in it.
pub fn highlight(line: &str, _cursor: usize) -> (spans: Vec<Span>)
    ensures
        span_views(spans@) == highlighted(line@),
{
    let mut out: Vec<Span> = Vec::new();
    let mut buf = String::new();
    let mut in_string = false;
    let mut string_delim: Option<char> = None;
    let unmatched = find_unmatched_brackets(line);
    let chars = chars_of(line);
    proof {
        lemma_comment_start(chars@, 0);
    }
    assert(span_views(out@) =~= Seq::<SpanView>::empty());
    match find_comment(&chars) {
        Some(i) => {
            let code = string_of(&chars, 0, i);
            flush_code_segment(
                code.as_str(),
                &mut out,
                &mut buf,
                &mut in_string,
                &mut string_delim,
                &unmatched,
            );
            push_span(&mut out, Shade::Comment, string_of(&chars, i, chars.len()));
        },
        None => {
            assert(chars@.subrange(0, chars@.len() as int) =~= chars@);
            flush_code_segment(
                line,
                &mut out,
                &mut buf,
                &mut in_string,
                &mut string_delim,
                &unmatched,
            );
        },
    }
    out
}

/// The texts of the spans, one after another.
pub open spec fn spans_text(spans: Seq<SpanView>) -> Seq<char>
    decreases spans.len(),
{
    if spans.len() == 0 {
        Seq::empty()
    } else {
        spans_text(spans.drop_last()) + spans.last().text
    }
}

/// A span that is added adds its text.
pub proof fn lemma_spans_text_push(spans: Seq<SpanView>, span: SpanView)
    ensures
        spans_text(spans.push(span)) == spans_text(spans) + span.text,
{
    assert(spans.push(span).drop_last() =~= spans);
}

/// A word that is flushed adds its text.
pub proof fn lemma_flush_word_text(out: Seq<SpanView>, word: Seq<char>)
    ensures
        spans_text(flush_word(out, word)) == spans_text(out) + word,
{
    if word.len() == 0 {
        assert(spans_text(out) + word =~= spans_text(out));
    } else {
        lemma_spans_text_push(out, SpanView { shade: word_shade(word), text: word });
    }
}

/// Shading loses no character and adds none: the spans made and what is
/// gathered spell what was there before and the characters read since.
pub proof fn lemma_paint_keeps_text(
    chars: Seq<char>,
    n: nat,
    start: PaintState,
    unmatched: Set<usize>,
)
    requires
        n <= chars.len(),
    ensures
        spans_text(paint(chars, n, start, unmatched).out) + paint(chars, n, start, unmatched).buf
            == spans_text(start.out) + start.buf + chars.subrange(0, n as int),
    decreases n,
{
    if n == 0 {
        assert(spans_text(start.out) + start.buf + chars.subrange(0, 0) =~= spans_text(start.out)
            + start.buf);
    } else {
        let before = paint(chars, (n - 1) as nat, start, unmatched);
        let after = paint(chars, n, start, unmatched);
        let ch = chars[n - 1];
        lemma_paint_keeps_text(chars, (n - 1) as nat, start, unmatched);
        let so_far = spans_text(start.out) + start.buf + chars.subrange(0, n - 1);
        assert(so_far.push(ch) =~= spans_text(start.out) + start.buf + chars.subrange(
            0,
            n as int,
        ));
        lemma_flush_word_text(before.out, before.buf);
        let flushed = flush_word(before.out, before.buf);
        if before.in_string {
            lemma_spans_text_push(
                before.out,
                SpanView { shade: Shade::String, text: before.buf.push(ch) },
            );
            assert(spans_text(after.out) + after.buf =~= so_far.push(ch));
        } else if quote_char(ch) {
            assert(spans_text(after.out) + after.buf =~= so_far.push(ch));
        } else if space_char(ch) {
            lemma_spans_text_push(flushed, SpanView { shade: Shade::Default, text: seq![ch] });
            assert(spans_text(after.out) + after.buf =~= so_far.push(ch));
        } else if symbol_char(ch) {
            lemma_spans_text_push(flushed, after.out.last());
            assert(after.out =~= flushed.push(after.out.last()));
            assert(spans_text(after.out) + after.buf =~= so_far.push(ch));
        } else {
            assert(spans_text(after.out) + after.buf =~= so_far.push(ch));
        }
    }
}

/// The spans of a line spell the line.
pub proof fn lemma_highlight_keeps_text(line: Seq<char>)
    ensures
        spans_text(highlighted(line)) == line,
{
    let cut = comment_start(line, 0);
    lemma_comment_start(line, 0);
    let code = line.subrange(0, cut);
    let unmatched = unmatched_brackets(line);
    let painted = paint(code, code.len(), blank_state(), unmatched);
    lemma_paint_keeps_text(code, code.len(), blank_state(), unmatched);
    assert(spans_text(blank_state().out) + blank_state().buf + code.subrange(
        0,
        code.len() as int,
    ) =~= code);
    let shaded = paint_end(painted).out;
    lemma_flush_word_text(painted.out, painted.buf);
    lemma_spans_text_push(painted.out, SpanView { shade: Shade::String, text: painted.buf });
    assert(spans_text(shaded) =~= code);
    if cut < line.len() {
        lemma_spans_text_push(
            shaded,
            SpanView { shade: Shade::Comment, text: line.subrange(cut, line.len() as int) },
        );
        assert(code + line.subrange(cut, line.len() as int) =~= line);
    } else {
        assert(code =~= line);
    }
}

} // verus!
