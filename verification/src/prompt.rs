//! What the interactive prompt decides about a line that was read: to
//! skip it, to end the session, to read on, or to evaluate what was
//! gathered.

use vstd::prelude::*;
use vstd::string::*;
use crate::repl::{balanced, chars_of, is_balanced, string_of};
use crate::text::str_equal;

verus! {

/// White space as the prompt trims it: the characters that Unicode gives
/// the property `White_Space`.
pub open spec fn white_space(c: char) -> bool {
    ('\u{9}' <= c <= '\u{d}') || c == ' ' || c == '\u{85}' || c == '\u{a0}' || c == '\u{1680}'
        || ('\u{2000}' <= c <= '\u{200a}') || c == '\u{2028}' || c == '\u{2029}' || c
        == '\u{202f}' || c == '\u{205f}' || c == '\u{3000}'
}

/// Whether `c` is white space.
pub fn is_white_space(c: char) -> (r: bool)
    ensures
        r == white_space(c),
{
    ('\u{9}' <= c && c <= '\u{d}') || c == ' ' || c == '\u{85}' || c == '\u{a0}' || c
        == '\u{1680}' || ('\u{2000}' <= c && c <= '\u{200a}') || c == '\u{2028}' || c
        == '\u{2029}' || c == '\u{202f}' || c == '\u{205f}' || c == '\u{3000}'
}

/// The text without the white space at its end.
pub open spec fn trimmed_end(text: Seq<char>) -> Seq<char>
    decreases text.len(),
{
    if text.len() > 0 && white_space(text.last()) {
        trimmed_end(text.drop_last())
    } else {
        text
    }
}

/// The text without the white space at its start.
pub open spec fn trimmed_start(text: Seq<char>) -> Seq<char>
    decreases text.len(),
{
    if text.len() > 0 && white_space(text.first()) {
        trimmed_start(text.drop_first())
    } else {
        text
    }
}

/// The text without the white space at its two ends.
pub open spec fn trimmed(text: Seq<char>) -> Seq<char> {
    trimmed_start(trimmed_end(text))
}

/// The index at which the white space at the end of `chars[from..]`
/// begins.
fn end_of_text(chars: &Vec<char>, from: usize) -> (end: usize)
    requires
        from <= chars@.len(),
    ensures
        from <= end <= chars@.len(),
        trimmed_end(chars@.subrange(from as int, chars@.len() as int)) == chars@.subrange(
            from as int,
            end as int,
        ),
{
    let mut end = chars.len();
    while end > from && is_white_space(chars[end - 1])
        invariant
            from <= end <= chars@.len(),
            trimmed_end(chars@.subrange(from as int, chars@.len() as int)) == trimmed_end(
                chars@.subrange(from as int, end as int),
            ),
        decreases end,
    {
        assert(chars@.subrange(from as int, end as int).drop_last() =~= chars@.subrange(
            from as int,
            end - 1,
        ));
        end -= 1;
    }
    end
}

/// The index at which the text of `chars` begins after the white space at
/// its start.
fn start_of_text(chars: &Vec<char>) -> (start: usize)
    ensures
        start <= chars@.len(),
        trimmed_start(chars@) == chars@.subrange(start as int, chars@.len() as int),
{
    let mut start: usize = 0;
    assert(chars@.subrange(0, chars@.len() as int) =~= chars@);
    while start < chars.len() && is_white_space(chars[start])
        invariant
            start <= chars@.len(),
            trimmed_start(chars@) == trimmed_start(
                chars@.subrange(start as int, chars@.len() as int),
            ),
        decreases chars@.len() - start,
    {
        assert(chars@.subrange(start as int, chars@.len() as int).drop_first()
            =~= chars@.subrange(start + 1, chars@.len() as int));
        start += 1;
    }
    start
}

/// White space at the start of a text stays at the start of what is left
/// when the end is trimmed, so the two ends can be trimmed in either order.
pub proof fn lemma_trim_either_way(text: Seq<char>)
    ensures
        trimmed_start(trimmed_end(text)) == trimmed_end(trimmed_start(text)),
    decreases text.len(),
{
    if text.len() > 0 && white_space(text.last()) {
        lemma_trim_either_way(text.drop_last());
        lemma_trimmed_start_of_blank_end(text);
    } else if text.len() > 0 && white_space(text.first()) {
        lemma_trimmed_end_of_blank_start(text);
    }
}

/// Trimming the start of a text that ends in white space: the white space
/// at the end goes with the rest of the end.
proof fn lemma_trimmed_start_of_blank_end(text: Seq<char>)
    requires
        text.len() > 0,
        white_space(text.last()),
    ensures
        trimmed_end(trimmed_start(text)) == trimmed_end(trimmed_start(text.drop_last())),
    decreases text.len(),
{
    if white_space(text.first()) {
        if text.len() > 1 {
            assert(text.drop_first().drop_last() =~= text.drop_last().drop_first());
            lemma_trimmed_start_of_blank_end(text.drop_first());
        } else {
            assert(text.drop_first() =~= text.drop_last());
        }
    }
}

/// Trimming the end of a text that starts with white space but does not
/// end in it leaves the start alone.
proof fn lemma_trimmed_end_of_blank_start(text: Seq<char>)
    requires
        text.len() > 0,
        !white_space(text.last()),
    ensures
        trimmed_end(trimmed_start(text)) == trimmed_start(text),
    decreases text.len(),
{
    if white_space(text.first()) {
        if text.len() > 1 {
            assert(text.drop_first().last() == text.last());
            lemma_trimmed_end_of_blank_start(text.drop_first());
        }
    }
}

/// The text of `s` without the white space at its two ends.
pub fn trim_text(s: &str) -> (text: String)
    ensures
        text@ == trimmed(s@),
{
    let chars = chars_of(s);
    let start = start_of_text(&chars);
    let end = end_of_text(&chars, start);
    proof {
        lemma_trim_either_way(chars@);
    }
    string_of(&chars, start, end)
}

/// What the prompt does with a line that was read.
#[derive(Debug)]
pub enum LineAction {
    /// Nothing: the line is empty.
    Skip,
    /// The session ends.
    Quit,
    /// More is read: the input so far, which is not balanced yet.
    Continue(String),
    /// The input is complete: the source to evaluate.
    Evaluate(String),
}

/// What the prompt does with a line, as a mathematical value.
pub enum LineActionView {
    Skip,
    Quit,
    Continue(Seq<char>),
    Evaluate(Seq<char>),
}

impl View for LineAction {
    type V = LineActionView;

    open spec fn view(&self) -> LineActionView {
        match self {
            LineAction::Skip => LineActionView::Skip,
            LineAction::Quit => LineActionView::Quit,
            LineAction::Continue(buffer) => LineActionView::Continue(buffer@),
            LineAction::Evaluate(source) => LineActionView::Evaluate(source@),
        }
    }
}

/// The words that end the session.
pub open spec fn quit_command(line: Seq<char>) -> bool {
    line == ":q"@ || line == ":quit"@ || line == ":exit"@
}

/// What a line does, given the unfinished input before it. White space at
/// its end does not count. An empty line is skipped and a quit command
/// ends the session. Any other line joins the input, with a line feed
/// after it; the input is evaluated, trimmed, once it is balanced, and
/// more is read until then.
pub open spec fn line_action(buffer: Seq<char>, line: Seq<char>) -> LineActionView {
    let text = trimmed_end(line);
    let grown = buffer + text + "\n"@;
    if text.len() == 0 {
        LineActionView::Skip
    } else if quit_command(text) {
        LineActionView::Quit
    } else if balanced(grown) {
        LineActionView::Evaluate(trimmed(grown))
    } else {
        LineActionView::Continue(grown)
    }
}

/// Decides what the prompt does with `line`, read while `buffer` holds the
/// unfinished input before it.
pub fn step(buffer: &str, line: &str) -> (action: LineAction)
    ensures
        action@ == line_action(buffer@, line@),
{
    let chars = chars_of(line);
    let end = end_of_text(&chars, 0);
    assert(chars@.subrange(0, chars@.len() as int) =~= chars@);
    if end == 0 {
        return LineAction::Skip;
    }
    let text = string_of(&chars, 0, end);
    if str_equal(text.as_str(), ":q") || str_equal(text.as_str(), ":quit") || str_equal(
        text.as_str(),
        ":exit",
    ) {
        return LineAction::Quit;
    }
    let mut grown = buffer.to_owned();
    grown.append(text.as_str());
    grown.append("\n");
    if is_balanced(grown.as_str()) {
        LineAction::Evaluate(trim_text(grown.as_str()))
    } else {
        LineAction::Continue(grown)
    }
}

} // verus!
