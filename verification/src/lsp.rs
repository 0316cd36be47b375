//! Language-server helpers: positions in a text (lines and columns counted
//! in characters, with `ropey`'s notion of lines), and the numbers of the
//! protocol's severities and kinds.

use vstd::prelude::*;
use crate::dsl::error::Severity;

verus! {

/// Whether a line break ends at position `p` of `text`, as ropey (with its
/// default `unicode_lines`) documents them: LF, VT, FF, NEL, LS, PS, or a
/// CR that is not followed by an LF (a CR LF pair ends at its LF).
pub open spec fn ends_line_break(text: Seq<char>, p: int) -> bool {
    let c = text[p];
    ||| c == '\n'
    ||| c == '\u{0B}'
    ||| c == '\u{0C}'
    ||| c == '\u{85}'
    ||| c == '\u{2028}'
    ||| c == '\u{2029}'
    ||| (c == '\r' && (p + 1 >= text.len() || text[p + 1] != '\n'))
}

/// The number of line breaks that end before position `idx`.
pub open spec fn breaks_before(text: Seq<char>, idx: int) -> nat
    decreases idx,
{
    if idx <= 0 {
        0
    } else {
        breaks_before(text, idx - 1) + if ends_line_break(text, idx - 1) { 1nat } else { 0nat }
    }
}

/// The line of the character at `idx` in `text`, as `ropey::Rope::char_to_line`
/// gives it: the number of line breaks before it.
pub open spec fn rope_char_to_line(text: Seq<char>, idx: int) -> int {
    breaks_before(text, idx) as int
}

/// The first position from `q` on with at least `line` line breaks before it,
/// or the end of the text.
pub open spec fn line_start_from(text: Seq<char>, line: int, q: int) -> int
    decreases text.len() - q,
{
    if q >= text.len() {
        text.len() as int
    } else if breaks_before(text, q) >= line {
        q
    } else {
        line_start_from(text, line, q + 1)
    }
}

/// The character index where line `line` of `text` starts, as
/// `ropey::Rope::line_to_char` gives it: just after its `line`-th line break
/// (the end of the text for the line past the last).
pub open spec fn rope_line_to_char(text: Seq<char>, line: int) -> int {
    line_start_from(text, line, 0)
}

/// The number of lines of `text`, as `ropey::Rope::len_lines` gives it: one
/// more than its line breaks.
pub open spec fn rope_len_lines(text: Seq<char>) -> int {
    breaks_before(text, text.len() as int) + 1int
}

/// More of the text holds at least as many line breaks.
proof fn lemma_breaks_monotone(text: Seq<char>, i: int, j: int)
    requires
        i <= j,
    ensures
        breaks_before(text, i) <= breaks_before(text, j),
    decreases j - i,
{
    if i < j {
        lemma_breaks_monotone(text, i, j - 1);
    }
}

/// A line starts within the text, and no later than a position that has
/// that many line breaks before it.
proof fn lemma_line_start(text: Seq<char>, line: int, q: int, idx: int)
    requires
        0 <= q <= idx <= text.len(),
        breaks_before(text, idx) >= line,
    ensures
        line_start_from(text, line, q) <= idx,
        line_start_from(text, line, q) <= text.len(),
    decreases text.len() - q,
{
    if q < text.len() && breaks_before(text, q) < line {
        if q == idx {
        } else {
            lemma_line_start(text, line, q + 1, idx);
        }
    }
}

/// Every line start lies within the text.
proof fn lemma_line_start_within(text: Seq<char>, line: int, q: int)
    requires
        0 <= q,
    ensures
        line_start_from(text, line, q) <= text.len(),
        q <= text.len() ==> q <= line_start_from(text, line, q),
    decreases text.len() - q,
{
    if q < text.len() && breaks_before(text, q) < line {
        lemma_line_start_within(text, line, q + 1);
    }
}

/// `ropey::Rope::from_str(text).char_to_line(idx)`. Claimed, as ropey
/// documents: the number of line breaks before the character (it panics
/// past the end, which `requires` rules out).
#[verifier::external_body]
fn char_to_line(text: &str, idx: usize) -> (r: usize)
    requires
        idx <= text@.len(),
    ensures
        r == rope_char_to_line(text@, idx as int),
{
    ropey::Rope::from_str(text).char_to_line(idx)
}

/// `ropey::Rope::from_str(text).line_to_char(line)`. Claimed, as ropey
/// documents: where the line starts (it panics past the line after the
/// last, which `requires` rules out).
#[verifier::external_body]
fn line_to_char(text: &str, line: usize) -> (r: usize)
    requires
        line <= rope_len_lines(text@),
    ensures
        r == rope_line_to_char(text@, line as int),
{
    ropey::Rope::from_str(text).line_to_char(line)
}

/// `ropey::Rope::from_str(text).len_lines()`. Claimed, as ropey documents:
/// one more than the number of line breaks.
#[verifier::external_body]
fn len_lines(text: &str) -> (r: usize)
    ensures
        r == rope_len_lines(text@),
{
    ropey::Rope::from_str(text).len_lines()
}

/// A position in a text document: a zero-based line and a character offset in it.
#[derive(Debug, Clone, Copy, PartialEq, Eq, Structural)]
pub struct Position {
    pub line: u32,
    pub character: u32,
}

/// Convert a character offset to a position: its line, and its distance
/// from the line's start.
pub fn char_to_position(char_idx: usize, text: &str) -> (r: Position)
    requires
        char_idx <= text@.len(),
    ensures
        r.line == rope_char_to_line(text@, char_idx as int) as u32,
        r.character == (char_idx - rope_line_to_char(text@, rope_char_to_line(text@, char_idx as int)))
            as u32,
{
    let line_idx = char_to_line(text, char_idx);
    proof {
        lemma_breaks_monotone(text@, char_idx as int, text@.len() as int);
        lemma_line_start(text@, line_idx as int, 0, char_idx as int);
    }
    let line_char_idx = line_to_char(text, line_idx);
    let column_idx = char_idx - line_char_idx;
    Position { line: line_idx as u32, character: column_idx as u32 }
}

/// Convert a position to a character offset: the start of its line plus
/// its character, or `None` when the line is past the text.
pub fn position_to_offset(text: &str, position: Position) -> (r: Option<usize>)
    requires
        text@.len() + position.character <= usize::MAX,
    ensures
        position.line >= rope_len_lines(text@) ==> r is None,
        position.line < rope_len_lines(text@) ==> r == Some(
            (rope_line_to_char(text@, position.line as int) + position.character) as usize,
        ),
{
    let line_idx = position.line as usize;
    let column_idx = position.character as usize;
    if line_idx >= len_lines(text) {
        return None;
    }
    let line_start = line_to_char(text, line_idx);
    proof {
        lemma_line_start_within(text@, line_idx as int, 0);
    }
    Some(line_start + column_idx)
}

/// The protocol's number for a diagnostic severity: hint 4, warning 2, error 1.
pub open spec fn lsp_severity_number(sev: Severity) -> i32 {
    match sev {
        Severity::Advice => 4,
        Severity::Warning => 2,
        Severity::Error => 1,
    }
}

/// Convert a severity to the protocol's diagnostic severity.
pub fn to_lsp_sev(sev: Severity) -> (r: i32)
    ensures
        r == lsp_severity_number(sev),
{
    match sev {
        Severity::Advice => 4,
        Severity::Warning => 2,
        Severity::Error => 1,
    }
}

/// The protocol's completion item kind for a number: text, class,
/// property, value, keyword, snippet and reference keep theirs, any other
/// number is text.
pub fn completion_item_kind(value: u32) -> (r: u32)
    ensures
        r == (if value == 1 || value == 7 || value == 10 || value == 12 || value == 14 || value == 15
            || value == 18 {
            value
        } else {
            1
        }),
{
    match value {
        1 => 1,
        7 => 7,
        10 => 10,
        12 => 12,
        14 => 14,
        15 => 15,
        18 => 18,
        _ => 1,
    }
}

/// The protocol's insert text format for a number: plain text (1) or
/// snippet (2), plain text for any other.
pub fn insert_text_format(value: u32) -> (r: u32)
    ensures
        r == (if value == 2 { 2u32 } else { 1u32 }),
{
    match value {
        1 => 1,
        2 => 2,
        _ => 1,
    }
}

/// The protocol's symbol kind for a number: namespace, class, property,
/// field, variable and string keep theirs, any other is string.
pub fn symbol_kind(value: u32) -> (r: u32)
    ensures
        r == (if value == 3 || value == 5 || value == 7 || value == 8 || value == 13 || value == 15 {
            value
        } else {
            15
        }),
{
    match value {
        3 => 3,
        5 => 5,
        7 => 7,
        8 => 8,
        13 => 13,
        15 => 15,
        _ => 15,
    }
}

}
