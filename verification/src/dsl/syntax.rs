//! Terminal syntax highlighting of DSL text: comments, strings, keywords,
//! type names, booleans, null and numbers are found with regular
//! expressions (the `regex` crate) and wrapped in ANSI colour codes.

use vstd::prelude::*;
use vstd::string::StringSliceAdditionalSpecFns;
use crate::engine::ids::push_all;

verus! {

/// The colours of the highlighter.
#[derive(Debug, Clone, Copy, PartialEq, Eq, Structural)]
pub enum Color {
    /// Keywords (definition, kind, model)
    Blue,
    /// Strings
    Green,
    /// Node names (id, string, integer)
    Cyan,
    /// Numbers
    Yellow,
    /// Comments
    Gray,
    /// Special values (null, true, false)
    Magenta,
}

/// The ANSI code that starts a colour.
pub open spec fn color_code(c: Color) -> Seq<u8> {
    match c {
        Color::Blue => seq![27u8, 91u8, 51u8, 52u8, 109u8],
        Color::Green => seq![27u8, 91u8, 51u8, 50u8, 109u8],
        Color::Cyan => seq![27u8, 91u8, 51u8, 54u8, 109u8],
        Color::Yellow => seq![27u8, 91u8, 51u8, 51u8, 109u8],
        Color::Gray => seq![27u8, 91u8, 57u8, 48u8, 109u8],
        Color::Magenta => seq![27u8, 91u8, 51u8, 53u8, 109u8],
    }
}

/// The ANSI code that resets the colour (`ESC [0m`).
pub open spec fn reset_code() -> Seq<u8> {
    seq![27u8, 91u8, 48u8, 109u8]
}

fn push_color(v: &mut Vec<u8>, c: Color)
    ensures
        final(v)@ == old(v)@ + color_code(c),
{
    match c {
        Color::Blue => push_all(v, &[27, 91, 51, 52, 109]),
        Color::Green => push_all(v, &[27, 91, 51, 50, 109]),
        Color::Cyan => push_all(v, &[27, 91, 51, 54, 109]),
        Color::Yellow => push_all(v, &[27, 91, 51, 51, 109]),
        Color::Gray => push_all(v, &[27, 91, 57, 48, 109]),
        Color::Magenta => push_all(v, &[27, 91, 51, 53, 109]),
    }
}

/// The byte ranges of the successive non-overlapping matches of `pattern`
/// in `text`, as the `regex` crate's `find_iter` gives them.
pub uninterp spec fn regex_matches(pattern: Seq<char>, text: Seq<char>) -> Seq<(usize, usize)>;

/// The byte range of the leftmost-first match of `pattern` in `text`, as
/// the `regex` crate's `find` gives it.
pub uninterp spec fn regex_first(pattern: Seq<char>, text: Seq<char>) -> Option<(usize, usize)>;

/// Compiles `pattern` with `regex::Regex::new` and lists `find_iter` over
/// `text` as byte ranges (none when the pattern does not compile). Claimed:
/// the result depends on `pattern` and `text` alone, and each range lies
/// within `text` with its start not after its end (the crate documents
/// matches as ranges of the haystack).
#[verifier::external_body]
fn find_all(pattern: &str, text: &str) -> (r: Vec<(usize, usize)>)
    ensures
        r@ == regex_matches(pattern@, text@),
        forall|i: int| 0 <= i < r@.len() ==> (#[trigger] r@[i]).0 <= r@[i].1 <= text.spec_bytes().len(),
{
    match regex::Regex::new(pattern) {
        Ok(re) => re.find_iter(text).map(|m| (m.start(), m.end())).collect(),
        Err(_) => Vec::new(),
    }
}

/// Compiles `pattern` with `regex::Regex::new` and runs `find` on `text`
/// (`None` when the pattern does not compile). Claimed as for `find_all`.
#[verifier::external_body]
fn find_first(pattern: &str, text: &str) -> (r: Option<(usize, usize)>)
    ensures
        r == regex_first(pattern@, text@),
        r matches Some(m) ==> m.0 <= m.1 <= text.spec_bytes().len(),
{
    match regex::Regex::new(pattern) {
        Ok(re) => re.find(text).map(|m| (m.start(), m.end())),
        Err(_) => None,
    }
}

/// Whether the range `start..end` overlaps one of `highlights`: it starts
/// or ends inside one, or covers one.
pub open spec fn overlaps_any(highlights: Seq<(usize, usize, Color)>, start: usize, end: usize) -> bool {
    exists|i: int|
        0 <= i < highlights.len() && {
            let (s, e, _) = #[trigger] highlights[i];
            (start >= s && start < e) || (end > s && end <= e) || (start <= s && end >= e)
        }
}

/// Whether the range `start..end` overlaps one of `highlights`.
pub fn overlaps(highlights: &Vec<(usize, usize, Color)>, start: usize, end: usize) -> (r: bool)
    ensures
        r == overlaps_any(highlights@, start, end),
{
    let mut i: usize = 0;
    while i < highlights.len()
        invariant
            i <= highlights@.len(),
            forall|j: int|
                0 <= j < i ==> !({
                    let (s, e, _) = #[trigger] highlights@[j];
                    (start >= s && start < e) || (end > s && end <= e) || (start <= s && end >= e)
                }),
        decreases highlights.len() - i,
    {
        let (s, e, _) = highlights[i];
        if (start >= s && start < e) || (end > s && end <= e) || (start <= s && end >= e) {
            return true;
        }
        i = i + 1;
    }
    false
}

/// `acc` with each of `ranges`, in `color`, that does not overlap what is
/// there already.
pub open spec fn with_free(acc: Seq<(usize, usize, Color)>, ranges: Seq<(usize, usize)>, color: Color) -> Seq<(usize, usize, Color)>
    decreases ranges.len(),
{
    if ranges.len() == 0 {
        acc
    } else {
        let a = with_free(acc, ranges.drop_last(), color);
        let (s, e) = ranges.last();
        if overlaps_any(a, s, e) {
            a
        } else {
            a.push((s, e, color))
        }
    }
}

/// `ranges` in `color`.
pub open spec fn colored(ranges: Seq<(usize, usize)>, color: Color) -> Seq<(usize, usize, Color)> {
    ranges.map_values(|m: (usize, usize)| (m.0, m.1, color))
}

/// The comment pattern.
pub open spec fn comment_pattern() -> Seq<char> {
    "//.*$"@
}

pub open spec fn string_pattern() -> Seq<char> {
    "\"([^\"\\\\]|\\\\.)*\""@
}

pub open spec fn number_pattern() -> Seq<char> {
    "\\b-?\\d+(\\.\\d+)?([eE][+-]?\\d+)?\\b"@
}

pub open spec fn boolean_pattern() -> Seq<char> {
    "\\b(true|false)\\b"@
}

pub open spec fn null_pattern() -> Seq<char> {
    "\\bnull\\b"@
}

pub open spec fn keyword_pattern() -> Seq<char> {
    "\\b(definition|kind|model|name|description)\\b"@
}

pub open spec fn node_name_pattern() -> Seq<char> {
    "\\b(id|string|integer|boolean|float|object|array)\\b"@
}

/// What a line is highlighted with, in the order found: a comment takes the
/// whole match alone; otherwise strings, then keywords, type names,
/// booleans, null and numbers, each where nothing earlier lies.
pub open spec fn line_highlights(line: Seq<char>) -> Seq<(usize, usize, Color)> {
    match regex_first(comment_pattern(), line) {
        Some(m) => seq![(m.0, m.1, Color::Gray)],
        None => {
            let a = colored(regex_matches(string_pattern(), line), Color::Green);
            let a = with_free(a, regex_matches(keyword_pattern(), line), Color::Blue);
            let a = with_free(a, regex_matches(node_name_pattern(), line), Color::Cyan);
            let a = with_free(a, regex_matches(boolean_pattern(), line), Color::Magenta);
            let a = with_free(a, regex_matches(null_pattern(), line), Color::Magenta);
            with_free(a, regex_matches(number_pattern(), line), Color::Yellow)
        },
    }
}

/// `sorted` with `h` inserted after every entry that does not start later.
pub open spec fn insert_by_start(sorted: Seq<(usize, usize, Color)>, h: (usize, usize, Color)) -> Seq<(usize, usize, Color)>
    decreases sorted.len(),
{
    if sorted.len() == 0 {
        seq![h]
    } else if sorted.last().0 <= h.0 {
        sorted.push(h)
    } else {
        insert_by_start(sorted.drop_last(), h).push(sorted.last())
    }
}

/// `hs` sorted by start, entries of equal start keeping their order.
pub open spec fn sorted_by_start(hs: Seq<(usize, usize, Color)>) -> Seq<(usize, usize, Color)>
    decreases hs.len(),
{
    if hs.len() == 0 {
        seq![]
    } else {
        insert_by_start(sorted_by_start(hs.drop_last()), hs.last())
    }
}

/// The bytes of `line` with each of `hs` (in order) wrapped in its colour
/// and a reset, from position `pos` on: text before a highlight is copied
/// when the highlight starts after `pos`.
pub open spec fn render_from(line: Seq<u8>, hs: Seq<(usize, usize, Color)>, pos: int) -> Seq<u8>
    decreases hs.len(),
{
    if hs.len() == 0 {
        if pos < line.len() {
            line.subrange(pos, line.len() as int)
        } else {
            seq![]
        }
    } else {
        let (s, e, c) = hs[0];
        let before = if pos < s {
            line.subrange(pos, s as int)
        } else {
            seq![]
        };
        before + color_code(c) + line.subrange(s as int, e as int) + reset_code() + render_from(
            line,
            hs.drop_first(),
            e as int,
        )
    }
}

/// Whether every highlight lies within `len` bytes with its start not after its end.
pub open spec fn within(hs: Seq<(usize, usize, Color)>, len: int) -> bool {
    forall|i: int| 0 <= i < hs.len() ==> (#[trigger] hs[i]).0 <= hs[i].1 <= len
}

fn add_free(acc: &mut Vec<(usize, usize, Color)>, ranges: &Vec<(usize, usize)>, color: Color, len: usize)
    requires
        within(old(acc)@, len as int),
        forall|i: int| 0 <= i < ranges@.len() ==> (#[trigger] ranges@[i]).0 <= ranges@[i].1 <= len,
    ensures
        final(acc)@ == with_free(old(acc)@, ranges@, color),
        within(final(acc)@, len as int),
{
    let mut i: usize = 0;
    while i < ranges.len()
        invariant
            i <= ranges@.len(),
            forall|k: int| 0 <= k < ranges@.len() ==> (#[trigger] ranges@[k]).0 <= ranges@[k].1 <= len,
            acc@ == with_free(old(acc)@, ranges@.take(i as int), color),
            within(acc@, len as int),
        decreases ranges.len() - i,
    {
        assert(ranges@.take(i + 1).drop_last() =~= ranges@.take(i as int));
        let (s, e) = ranges[i];
        if !overlaps(acc, s, e) {
            acc.push((s, e, color));
        }
        i = i + 1;
    }
    assert(ranges@.take(i as int) =~= ranges@);
}

fn insert_sorted(sorted: &mut Vec<(usize, usize, Color)>, h: (usize, usize, Color))
    ensures
        final(sorted)@ == insert_by_start(old(sorted)@, h),
    decreases old(sorted)@.len(),
{
    if sorted.len() == 0 {
        sorted.push(h);
        assert(sorted@ =~= seq![h]);
    } else {
        let last = sorted[sorted.len() - 1];
        if last.0 <= h.0 {
            sorted.push(h);
        } else {
            let ghost before = sorted@;
            sorted.pop();
            assert(sorted@ =~= before.drop_last());
            insert_sorted(sorted, h);
            sorted.push(last);
        }
    }
}

fn sort_by_start(hs: &Vec<(usize, usize, Color)>) -> (r: Vec<(usize, usize, Color)>)
    ensures
        r@ == sorted_by_start(hs@),
{
    let mut r: Vec<(usize, usize, Color)> = Vec::new();
    let mut i: usize = 0;
    while i < hs.len()
        invariant
            i <= hs@.len(),
            r@ == sorted_by_start(hs@.take(i as int)),
        decreases hs.len() - i,
    {
        assert(hs@.take(i + 1).drop_last() =~= hs@.take(i as int));
        insert_sorted(&mut r, hs[i]);
        i = i + 1;
    }
    assert(hs@.take(i as int) =~= hs@);
    r
}

proof fn lemma_insert_within(sorted: Seq<(usize, usize, Color)>, h: (usize, usize, Color), len: int)
    requires
        within(sorted, len),
        h.0 <= h.1 <= len,
    ensures
        within(insert_by_start(sorted, h), len),
    decreases sorted.len(),
{
    if sorted.len() > 0 && sorted.last().0 > h.0 {
        let d = sorted.drop_last();
        assert(within(d, len)) by {
            assert forall|i: int| 0 <= i < d.len() implies (#[trigger] d[i]).0 <= d[i].1 <= len by {
                assert(d[i] == sorted[i]);
            }
        }
        lemma_insert_within(d, h, len);
        assert(sorted.last() == sorted[sorted.len() - 1]);
    }
}

proof fn lemma_sorted_within(hs: Seq<(usize, usize, Color)>, len: int)
    requires
        within(hs, len),
    ensures
        within(sorted_by_start(hs), len),
    decreases hs.len(),
{
    if hs.len() > 0 {
        let d = hs.drop_last();
        assert(within(d, len)) by {
            assert forall|i: int| 0 <= i < d.len() implies (#[trigger] d[i]).0 <= d[i].1 <= len by {
                assert(d[i] == hs[i]);
            }
        }
        lemma_sorted_within(d, len);
        assert(hs.last() == hs[hs.len() - 1]);
        lemma_insert_within(sorted_by_start(d), hs.last(), len);
    }
}

/// One line of DSL text with its highlights in ANSI colours, as bytes of
/// UTF-8 text: the highlights, sorted by where they start, are each wrapped
/// in their colour and a reset.
pub fn highlight_line(line: &str) -> (r: Vec<u8>)
    ensures
        r@ == render_from(line.spec_bytes(), sorted_by_start(line_highlights(line@)), 0),
{
    let bytes = line.as_bytes();
    let len = bytes.len();
    let mut highlights: Vec<(usize, usize, Color)> = Vec::new();
    match find_first("//.*$", line) {
        Some((s, e)) => {
            highlights.push((s, e, Color::Gray));
            proof {
                reveal_strlit("//.*$");
                assert(highlights@ =~= seq![(s, e, Color::Gray)]);
            }
        },
        None => {
            proof {
                reveal_strlit("//.*$");
            }
            let strings = find_all("\"([^\"\\\\]|\\\\.)*\"", line);
            let mut k: usize = 0;
            while k < strings.len()
                invariant
                    k <= strings@.len(),
                    forall|j: int| 0 <= j < strings@.len() ==> (#[trigger] strings@[j]).0 <= strings@[j].1 <= len,
                    highlights@ == colored(strings@.take(k as int), Color::Green),
                    within(highlights@, len as int),
                decreases strings.len() - k,
            {
                highlights.push((strings[k].0, strings[k].1, Color::Green));
                assert(colored(strings@.take(k + 1), Color::Green) =~= colored(strings@.take(k as int), Color::Green).push(
                    (strings@[k as int].0, strings@[k as int].1, Color::Green),
                ));
                k = k + 1;
            }
            assert(strings@.take(k as int) =~= strings@);
            let keywords = find_all("\\b(definition|kind|model|name|description)\\b", line);
            add_free(&mut highlights, &keywords, Color::Blue, len);
            let names = find_all("\\b(id|string|integer|boolean|float|object|array)\\b", line);
            add_free(&mut highlights, &names, Color::Cyan, len);
            let booleans = find_all("\\b(true|false)\\b", line);
            add_free(&mut highlights, &booleans, Color::Magenta, len);
            let nulls = find_all("\\bnull\\b", line);
            add_free(&mut highlights, &nulls, Color::Magenta, len);
            let numbers = find_all("\\b-?\\d+(\\.\\d+)?([eE][+-]?\\d+)?\\b", line);
            add_free(&mut highlights, &numbers, Color::Yellow, len);
        },
    }
    let sorted = sort_by_start(&highlights);
    proof {
        lemma_sorted_within(highlights@, len as int);
    }
    let mut result: Vec<u8> = Vec::new();
    let mut pos: usize = 0;
    let mut i: usize = 0;
    assert(sorted@.skip(0) =~= sorted@);
    assert(result@ + render_from(bytes@, sorted@, 0) =~= render_from(bytes@, sorted@, 0));
    while i < sorted.len()
        invariant
            i <= sorted@.len(),
            bytes@ == line.spec_bytes(),
            len == bytes@.len(),
            within(sorted@, len as int),
            pos <= len,
            result@ + render_from(bytes@, sorted@.skip(i as int), pos as int) == render_from(
                bytes@,
                sorted@,
                0,
            ),
        decreases sorted.len() - i,
    {
        let (s, e, c) = sorted[i];
        assert(sorted@.skip(i as int)[0] == sorted@[i as int]);
        assert(sorted@.skip(i as int).drop_first() =~= sorted@.skip(i + 1));
        let ghost before = result@;
        if pos < s {
            push_all(&mut result, slice_range(bytes, pos, s));
        }
        push_color(&mut result, c);
        push_all(&mut result, slice_range(bytes, s, e));
        push_all(&mut result, &[27, 91, 48, 109]);
        proof {
            let b = if pos < s { bytes@.subrange(pos as int, s as int) } else { seq![] };
            assert(result@ =~= before + b + color_code(c) + bytes@.subrange(s as int, e as int) + reset_code());
        }
        pos = e;
        i = i + 1;
    }
    if pos < len {
        push_all(&mut result, slice_range(bytes, pos, len));
    }
    proof {
        assert(sorted@.skip(i as int).len() == 0);
    }
    result
}

/// The bytes `bytes[from..to]`.
fn slice_range(bytes: &[u8], from: usize, to: usize) -> (r: &[u8])
    requires
        from <= to <= bytes@.len(),
    ensures
        r@ == bytes@.subrange(from as int, to as int),
{
    let (_, tail) = bytes.split_at(from);
    let (mid, _) = tail.split_at(to - from);
    assert(mid@ =~= bytes@.subrange(from as int, to as int));
    mid
}


// ------------------------------------------------------------------------
// What a highlighted line shows
// ------------------------------------------------------------------------

/// Whether the range `r` and the range `start..end` share a byte, or one
/// covers the other.
pub open spec fn ranges_meet(r: (usize, usize), start: usize, end: usize) -> bool {
    (start >= r.0 && start < r.1) || (end > r.0 && end <= r.1) || (start <= r.0 && end >= r.1)
}

proof fn lemma_with_free_prefix(acc: Seq<(usize, usize, Color)>, ranges: Seq<(usize, usize)>, color: Color, n: int)
    requires
        0 <= n <= ranges.len(),
    ensures
        with_free(acc, ranges.take(n), color).is_prefix_of(with_free(acc, ranges, color)),
    decreases ranges.len(),
{
    if n == ranges.len() {
        assert(ranges.take(n) =~= ranges);
    } else {
        let d = ranges.drop_last();
        assert(d.take(n) =~= ranges.take(n));
        lemma_with_free_prefix(acc, d, color, n);
    }
}

proof fn lemma_with_free_origin(acc: Seq<(usize, usize, Color)>, ranges: Seq<(usize, usize)>, color: Color, i: int)
    requires
        0 <= i < with_free(acc, ranges, color).len(),
    ensures
        (0 <= i < acc.len() && with_free(acc, ranges, color)[i] == acc[i]) || exists|j: int|
            0 <= j < ranges.len() && with_free(acc, ranges, color)[i] == (
                #[trigger] ranges[j].0,
                ranges[j].1,
                color,
            ),
    decreases ranges.len(),
{
    if ranges.len() > 0 {
        let d = ranges.drop_last();
        let a = with_free(acc, d, color);
        if i < a.len() {
            lemma_with_free_origin(acc, d, color, i);
            if exists|j: int| 0 <= j < d.len() && a[i] == (#[trigger] d[j].0, d[j].1, color) {
                let j = choose|j: int| 0 <= j < d.len() && a[i] == (#[trigger] d[j].0, d[j].1, color);
                assert(d[j] == ranges[j]);
            }
        } else {
            assert(ranges[ranges.len() - 1] == ranges.last());
        }
    }
}

proof fn lemma_kept(acc: Seq<(usize, usize, Color)>, ranges: Seq<(usize, usize)>, color: Color, x: (usize, usize, Color))
    requires
        acc.contains(x),
    ensures
        with_free(acc, ranges, color).contains(x),
{
    lemma_with_free_prefix(acc, ranges, color, 0);
    assert(ranges.take(0) =~= Seq::<(usize, usize)>::empty());
    let b = with_free(acc, ranges, color);
    let i = choose|i: int| 0 <= i < acc.len() && acc[i] == x;
    assert(b[i] == x);
}

/// Whether no range of `ranges` meets `start..end`.
pub open spec fn meets_none(ranges: Seq<(usize, usize)>, start: usize, end: usize) -> bool {
    forall|i: int| 0 <= i < ranges.len() ==> !ranges_meet(#[trigger] ranges[i], start, end)
}

proof fn lemma_still_free(acc: Seq<(usize, usize, Color)>, ranges: Seq<(usize, usize)>, color: Color, s: usize, e: usize)
    requires
        !overlaps_any(acc, s, e),
        meets_none(ranges, s, e),
    ensures
        !overlaps_any(with_free(acc, ranges, color), s, e),
{
    let t = with_free(acc, ranges, color);
    if overlaps_any(t, s, e) {
        let i = choose|i: int|
            0 <= i < t.len() && {
                let (hs, he, _) = #[trigger] t[i];
                (s >= hs && s < he) || (e > hs && e <= he) || (s <= hs && e >= he)
            };
        lemma_with_free_origin(acc, ranges, color, i);
        if 0 <= i < acc.len() && t[i] == acc[i] {
            assert(overlaps_any(acc, s, e));
        } else {
            let j = choose|j: int| 0 <= j < ranges.len() && t[i] == (#[trigger] ranges[j].0, ranges[j].1, color);
            assert(!ranges_meet(ranges[j], s, e));
        }
    }
}

proof fn lemma_free_added(acc: Seq<(usize, usize, Color)>, ranges: Seq<(usize, usize)>, color: Color, k: int)
    requires
        0 <= k < ranges.len(),
        !overlaps_any(acc, ranges[k].0, ranges[k].1),
        meets_none(ranges.take(k), ranges[k].0, ranges[k].1),
    ensures
        with_free(acc, ranges, color).contains((ranges[k].0, ranges[k].1, color)),
{
    let (s, e) = ranges[k];
    let x = (s, e, color);
    lemma_still_free(acc, ranges.take(k), color, s, e);
    let t = with_free(acc, ranges.take(k), color);
    let t1 = with_free(acc, ranges.take(k + 1), color);
    assert(ranges.take(k + 1).drop_last() =~= ranges.take(k));
    assert(ranges.take(k + 1).last() == ranges[k]);
    assert(t1 == t.push(x));
    assert(t1[t.len() as int] == x);
    lemma_with_free_prefix(acc, ranges, color, k + 1);
    let b = with_free(acc, ranges, color);
    assert(b[t.len() as int] == x);
}

proof fn lemma_colored_free(ranges: Seq<(usize, usize)>, color: Color, s: usize, e: usize)
    requires
        meets_none(ranges, s, e),
    ensures
        !overlaps_any(colored(ranges, color), s, e),
{
    let c = colored(ranges, color);
    if overlaps_any(c, s, e) {
        let i = choose|i: int|
            0 <= i < c.len() && {
                let (hs, he, _) = #[trigger] c[i];
                (s >= hs && s < he) || (e > hs && e <= he) || (s <= hs && e >= he)
            };
        assert(!ranges_meet(ranges[i], s, e));
    }
}

/// A line with a comment is highlighted as that comment alone, in gray.
pub proof fn comment_lines_are_gray(line: Seq<char>)
    requires
        regex_first(comment_pattern(), line) is Some,
    ensures
        line_highlights(line) == seq![
            (
                (regex_first(comment_pattern(), line)->0).0,
                (regex_first(comment_pattern(), line)->0).1,
                Color::Gray,
            ),
        ],
{
}

/// On a line without a comment every string is highlighted in green.
pub proof fn strings_are_green(line: Seq<char>, k: int)
    requires
        regex_first(comment_pattern(), line) is None,
        0 <= k < regex_matches(string_pattern(), line).len(),
    ensures
        line_highlights(line).contains(
            (regex_matches(string_pattern(), line)[k].0, regex_matches(string_pattern(), line)[k].1, Color::Green),
        ),
{
    let strs = regex_matches(string_pattern(), line);
    let x = (strs[k].0, strs[k].1, Color::Green);
    let a1 = colored(strs, Color::Green);
    assert(a1[k] == x);
    let a2 = with_free(a1, regex_matches(keyword_pattern(), line), Color::Blue);
    lemma_kept(a1, regex_matches(keyword_pattern(), line), Color::Blue, x);
    lemma_after_keywords(line, a2, x);
}

proof fn lemma_after_keywords(line: Seq<char>, a2: Seq<(usize, usize, Color)>, x: (usize, usize, Color))
    requires
        a2 == with_free(
            colored(regex_matches(string_pattern(), line), Color::Green),
            regex_matches(keyword_pattern(), line),
            Color::Blue,
        ),
        a2.contains(x),
        regex_first(comment_pattern(), line) is None,
    ensures
        line_highlights(line).contains(x),
{
    let a3 = with_free(a2, regex_matches(node_name_pattern(), line), Color::Cyan);
    lemma_kept(a2, regex_matches(node_name_pattern(), line), Color::Cyan, x);
    lemma_after_names(line, a3, x);
}

proof fn lemma_after_names(line: Seq<char>, a3: Seq<(usize, usize, Color)>, x: (usize, usize, Color))
    requires
        a3 == with_free(
            with_free(
                colored(regex_matches(string_pattern(), line), Color::Green),
                regex_matches(keyword_pattern(), line),
                Color::Blue,
            ),
            regex_matches(node_name_pattern(), line),
            Color::Cyan,
        ),
        a3.contains(x),
        regex_first(comment_pattern(), line) is None,
    ensures
        line_highlights(line).contains(x),
{
    let a4 = with_free(a3, regex_matches(boolean_pattern(), line), Color::Magenta);
    lemma_kept(a3, regex_matches(boolean_pattern(), line), Color::Magenta, x);
    lemma_after_booleans(line, a4, x);
}

proof fn lemma_after_booleans(line: Seq<char>, a4: Seq<(usize, usize, Color)>, x: (usize, usize, Color))
    requires
        a4 == with_free(
            with_free(
                with_free(
                    colored(regex_matches(string_pattern(), line), Color::Green),
                    regex_matches(keyword_pattern(), line),
                    Color::Blue,
                ),
                regex_matches(node_name_pattern(), line),
                Color::Cyan,
            ),
            regex_matches(boolean_pattern(), line),
            Color::Magenta,
        ),
        a4.contains(x),
        regex_first(comment_pattern(), line) is None,
    ensures
        line_highlights(line).contains(x),
{
    let a5 = with_free(a4, regex_matches(null_pattern(), line), Color::Magenta);
    lemma_kept(a4, regex_matches(null_pattern(), line), Color::Magenta, x);
    lemma_kept(a5, regex_matches(number_pattern(), line), Color::Yellow, x);
}

/// On a line without a comment, a keyword that meets no string and no
/// earlier keyword is highlighted in blue.
pub proof fn free_keywords_are_blue(line: Seq<char>, k: int)
    requires
        regex_first(comment_pattern(), line) is None,
        0 <= k < regex_matches(keyword_pattern(), line).len(),
        meets_none(
            regex_matches(string_pattern(), line),
            regex_matches(keyword_pattern(), line)[k].0,
            regex_matches(keyword_pattern(), line)[k].1,
        ),
        meets_none(
            regex_matches(keyword_pattern(), line).take(k),
            regex_matches(keyword_pattern(), line)[k].0,
            regex_matches(keyword_pattern(), line)[k].1,
        ),
    ensures
        line_highlights(line).contains(
            (regex_matches(keyword_pattern(), line)[k].0, regex_matches(keyword_pattern(), line)[k].1, Color::Blue),
        ),
{
    let strs = regex_matches(string_pattern(), line);
    let kws = regex_matches(keyword_pattern(), line);
    let (s, e) = kws[k];
    lemma_colored_free(strs, Color::Green, s, e);
    lemma_free_added(colored(strs, Color::Green), kws, Color::Blue, k);
    lemma_after_keywords(line, with_free(colored(strs, Color::Green), kws, Color::Blue), (s, e, Color::Blue));
}

/// On a line without a comment, a type name that meets no string, no
/// keyword and no earlier type name is highlighted in cyan.
pub proof fn free_type_names_are_cyan(line: Seq<char>, k: int)
    requires
        regex_first(comment_pattern(), line) is None,
        0 <= k < regex_matches(node_name_pattern(), line).len(),
        meets_none(
            regex_matches(string_pattern(), line),
            regex_matches(node_name_pattern(), line)[k].0,
            regex_matches(node_name_pattern(), line)[k].1,
        ),
        meets_none(
            regex_matches(keyword_pattern(), line),
            regex_matches(node_name_pattern(), line)[k].0,
            regex_matches(node_name_pattern(), line)[k].1,
        ),
        meets_none(
            regex_matches(node_name_pattern(), line).take(k),
            regex_matches(node_name_pattern(), line)[k].0,
            regex_matches(node_name_pattern(), line)[k].1,
        ),
    ensures
        line_highlights(line).contains(
            (
                regex_matches(node_name_pattern(), line)[k].0,
                regex_matches(node_name_pattern(), line)[k].1,
                Color::Cyan,
            ),
        ),
{
    let strs = regex_matches(string_pattern(), line);
    let kws = regex_matches(keyword_pattern(), line);
    let names = regex_matches(node_name_pattern(), line);
    let (s, e) = names[k];
    lemma_colored_free(strs, Color::Green, s, e);
    let a1 = colored(strs, Color::Green);
    lemma_still_free(a1, kws, Color::Blue, s, e);
    let a2 = with_free(a1, kws, Color::Blue);
    lemma_free_added(a2, names, Color::Cyan, k);
    lemma_after_names(line, with_free(a2, names, Color::Cyan), (s, e, Color::Cyan));
}

/// On a line without a comment, a boolean that meets no string, keyword,
/// type name or earlier boolean is highlighted in magenta.
pub proof fn free_booleans_are_magenta(line: Seq<char>, k: int)
    requires
        regex_first(comment_pattern(), line) is None,
        0 <= k < regex_matches(boolean_pattern(), line).len(),
        meets_none(
            regex_matches(string_pattern(), line),
            regex_matches(boolean_pattern(), line)[k].0,
            regex_matches(boolean_pattern(), line)[k].1,
        ),
        meets_none(
            regex_matches(keyword_pattern(), line),
            regex_matches(boolean_pattern(), line)[k].0,
            regex_matches(boolean_pattern(), line)[k].1,
        ),
        meets_none(
            regex_matches(node_name_pattern(), line),
            regex_matches(boolean_pattern(), line)[k].0,
            regex_matches(boolean_pattern(), line)[k].1,
        ),
        meets_none(
            regex_matches(boolean_pattern(), line).take(k),
            regex_matches(boolean_pattern(), line)[k].0,
            regex_matches(boolean_pattern(), line)[k].1,
        ),
    ensures
        line_highlights(line).contains(
            (regex_matches(boolean_pattern(), line)[k].0, regex_matches(boolean_pattern(), line)[k].1, Color::Magenta),
        ),
{
    let strs = regex_matches(string_pattern(), line);
    let kws = regex_matches(keyword_pattern(), line);
    let names = regex_matches(node_name_pattern(), line);
    let bools = regex_matches(boolean_pattern(), line);
    let (s, e) = bools[k];
    lemma_colored_free(strs, Color::Green, s, e);
    let a1 = colored(strs, Color::Green);
    lemma_still_free(a1, kws, Color::Blue, s, e);
    let a2 = with_free(a1, kws, Color::Blue);
    lemma_still_free(a2, names, Color::Cyan, s, e);
    let a3 = with_free(a2, names, Color::Cyan);
    lemma_free_added(a3, bools, Color::Magenta, k);
    lemma_after_booleans(line, with_free(a3, bools, Color::Magenta), (s, e, Color::Magenta));
}

/// On a line without a comment, `null` that meets no string, keyword, type
/// name, boolean or earlier `null` is highlighted in magenta.
pub proof fn free_nulls_are_magenta(line: Seq<char>, k: int)
    requires
        regex_first(comment_pattern(), line) is None,
        0 <= k < regex_matches(null_pattern(), line).len(),
        meets_none(
            regex_matches(string_pattern(), line),
            regex_matches(null_pattern(), line)[k].0,
            regex_matches(null_pattern(), line)[k].1,
        ),
        meets_none(
            regex_matches(keyword_pattern(), line),
            regex_matches(null_pattern(), line)[k].0,
            regex_matches(null_pattern(), line)[k].1,
        ),
        meets_none(
            regex_matches(node_name_pattern(), line),
            regex_matches(null_pattern(), line)[k].0,
            regex_matches(null_pattern(), line)[k].1,
        ),
        meets_none(
            regex_matches(boolean_pattern(), line),
            regex_matches(null_pattern(), line)[k].0,
            regex_matches(null_pattern(), line)[k].1,
        ),
        meets_none(
            regex_matches(null_pattern(), line).take(k),
            regex_matches(null_pattern(), line)[k].0,
            regex_matches(null_pattern(), line)[k].1,
        ),
    ensures
        line_highlights(line).contains(
            (regex_matches(null_pattern(), line)[k].0, regex_matches(null_pattern(), line)[k].1, Color::Magenta),
        ),
{
    let strs = regex_matches(string_pattern(), line);
    let kws = regex_matches(keyword_pattern(), line);
    let names = regex_matches(node_name_pattern(), line);
    let bools = regex_matches(boolean_pattern(), line);
    let nulls = regex_matches(null_pattern(), line);
    let (s, e) = nulls[k];
    lemma_colored_free(strs, Color::Green, s, e);
    let a1 = colored(strs, Color::Green);
    lemma_still_free(a1, kws, Color::Blue, s, e);
    let a2 = with_free(a1, kws, Color::Blue);
    lemma_still_free(a2, names, Color::Cyan, s, e);
    let a3 = with_free(a2, names, Color::Cyan);
    lemma_still_free(a3, bools, Color::Magenta, s, e);
    let a4 = with_free(a3, bools, Color::Magenta);
    lemma_free_added(a4, nulls, Color::Magenta, k);
    let a5 = with_free(a4, nulls, Color::Magenta);
    lemma_kept(a5, regex_matches(number_pattern(), line), Color::Yellow, (s, e, Color::Magenta));
}

/// On a line without a comment, a number that meets no string, keyword,
/// type name, boolean, `null` or earlier number is highlighted in yellow.
pub proof fn free_numbers_are_yellow(line: Seq<char>, k: int)
    requires
        regex_first(comment_pattern(), line) is None,
        0 <= k < regex_matches(number_pattern(), line).len(),
        meets_none(
            regex_matches(string_pattern(), line),
            regex_matches(number_pattern(), line)[k].0,
            regex_matches(number_pattern(), line)[k].1,
        ),
        meets_none(
            regex_matches(keyword_pattern(), line),
            regex_matches(number_pattern(), line)[k].0,
            regex_matches(number_pattern(), line)[k].1,
        ),
        meets_none(
            regex_matches(node_name_pattern(), line),
            regex_matches(number_pattern(), line)[k].0,
            regex_matches(number_pattern(), line)[k].1,
        ),
        meets_none(
            regex_matches(boolean_pattern(), line),
            regex_matches(number_pattern(), line)[k].0,
            regex_matches(number_pattern(), line)[k].1,
        ),
        meets_none(
            regex_matches(null_pattern(), line),
            regex_matches(number_pattern(), line)[k].0,
            regex_matches(number_pattern(), line)[k].1,
        ),
        meets_none(
            regex_matches(number_pattern(), line).take(k),
            regex_matches(number_pattern(), line)[k].0,
            regex_matches(number_pattern(), line)[k].1,
        ),
    ensures
        line_highlights(line).contains(
            (regex_matches(number_pattern(), line)[k].0, regex_matches(number_pattern(), line)[k].1, Color::Yellow),
        ),
{
    let strs = regex_matches(string_pattern(), line);
    let kws = regex_matches(keyword_pattern(), line);
    let names = regex_matches(node_name_pattern(), line);
    let bools = regex_matches(boolean_pattern(), line);
    let nulls = regex_matches(null_pattern(), line);
    let nums = regex_matches(number_pattern(), line);
    let (s, e) = nums[k];
    lemma_colored_free(strs, Color::Green, s, e);
    let a1 = colored(strs, Color::Green);
    lemma_still_free(a1, kws, Color::Blue, s, e);
    let a2 = with_free(a1, kws, Color::Blue);
    lemma_still_free(a2, names, Color::Cyan, s, e);
    let a3 = with_free(a2, names, Color::Cyan);
    lemma_still_free(a3, bools, Color::Magenta, s, e);
    let a4 = with_free(a3, bools, Color::Magenta);
    lemma_still_free(a4, nulls, Color::Magenta, s, e);
    let a5 = with_free(a4, nulls, Color::Magenta);
    lemma_free_added(a5, nums, Color::Yellow, k);
}

}
