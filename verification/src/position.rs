use vstd::prelude::*;

use crate::text::TextBuffer;

verus! {

// ---------------------------------------------------------------------------
// Mathematical model of line/column addressing.
//
// A line is a `\n`-delimited segment of the text. The line index of an
// offset is the number of newlines strictly before it; its column is the
// distance to the start of its line, counted in scalar values.
// ---------------------------------------------------------------------------
/// The number of newline characters strictly before offset `o`.
pub open spec fn newlines_before(t: Seq<char>, o: int) -> int
    decreases o,
{
    if o <= 0 {
        0
    } else {
        newlines_before(t, o - 1) + if t[o - 1] == '\n' {
            1int
        } else {
            0int
        }
    }
}

/// The offset at which the line containing offset `o` starts: the position
/// just after the last newline before `o`, or `0` on the first line.
pub open spec fn line_start_of(t: Seq<char>, o: int) -> int
    decreases o,
{
    if o <= 0 {
        0
    } else if t[o - 1] == '\n' {
        o
    } else {
        line_start_of(t, o - 1)
    }
}

/// The offset at which the line containing offset `o` ends: the position of
/// the next newline at or after `o`, or the end of the text.
pub open spec fn line_end_of(t: Seq<char>, o: int) -> int
    decreases t.len() - o,
{
    if o >= t.len() {
        t.len() as int
    } else if t[o] == '\n' {
        o
    } else {
        line_end_of(t, o + 1)
    }
}

/// The offset at which line `line` starts. A result past `t.len()` means the
/// text has fewer lines than that.
pub open spec fn start_of_line(t: Seq<char>, line: int) -> int
    decreases line,
{
    if line <= 0 {
        0
    } else {
        let e = line_end_of(t, start_of_line(t, line - 1));
        if e < t.len() {
            e + 1
        } else {
            t.len() as int + 1
        }
    }
}

/// An offset clamped to the valid range `[0, t.len()]`.
pub open spec fn clamp_offset(t: Seq<char>, o: int) -> int {
    if o > t.len() {
        t.len() as int
    } else {
        o
    }
}

/// The (line, column) address of an offset; offsets past the end address the
/// end of the last line.
pub open spec fn offset_to_line_column_spec(t: Seq<char>, o: int) -> (int, int) {
    let c = clamp_offset(t, o);
    (newlines_before(t, c), c - line_start_of(t, c))
}

/// The line index of a clamped offset.
pub open spec fn line_of(t: Seq<char>, o: int) -> int {
    offset_to_line_column_spec(t, o).0
}

/// The column of a clamped offset.
pub open spec fn column_of(t: Seq<char>, o: int) -> int {
    offset_to_line_column_spec(t, o).1
}

/// The offset of the given (line, column) address: columns past the end of
/// the line clamp to the end of that line, and lines past the last line
/// clamp to the end of the text.
pub open spec fn line_column_to_offset_spec(t: Seq<char>, line: int, column: int) -> int {
    let s = start_of_line(t, line);
    if s > t.len() {
        t.len() as int
    } else {
        let e = line_end_of(t, s);
        if s + column <= e {
            s + column
        } else {
            e
        }
    }
}

// ---------------------------------------------------------------------------
// Basic bounds of the model.
// ---------------------------------------------------------------------------
pub proof fn lemma_newlines_before_bounds(t: Seq<char>, o: int)
    requires
        0 <= o,
    ensures
        0 <= newlines_before(t, o) <= o,
    decreases o,
{
    if o > 0 {
        lemma_newlines_before_bounds(t, o - 1);
    }
}

pub proof fn lemma_line_start_bounds(t: Seq<char>, o: int)
    requires
        0 <= o,
    ensures
        0 <= line_start_of(t, o) <= o,
    decreases o,
{
    if o > 0 && t[o - 1] != '\n' {
        lemma_line_start_bounds(t, o - 1);
    }
}

pub proof fn lemma_line_end_bounds(t: Seq<char>, o: int)
    requires
        0 <= o <= t.len(),
    ensures
        o <= line_end_of(t, o) <= t.len(),
    decreases t.len() - o,
{
    if o < t.len() && t[o] != '\n' {
        lemma_line_end_bounds(t, o + 1);
    }
}

/// No character between the start of a line and an offset on that line is a
/// newline.
pub proof fn lemma_no_newline_in_line(t: Seq<char>, o: int)
    requires
        0 <= o,
    ensures
        forall|j: int| line_start_of(t, o) <= j < o ==> t[j] != '\n',
    decreases o,
{
    if o > 0 && t[o - 1] != '\n' {
        lemma_no_newline_in_line(t, o - 1);
    }
}

/// Scanning for the end of a line can start anywhere before that end: if no
/// newline lies in `[s, o)`, the scan from `s` and from `o` agree.
pub proof fn lemma_line_end_skip(t: Seq<char>, s: int, o: int)
    requires
        0 <= s <= o <= t.len(),
        forall|j: int| s <= j < o ==> t[j] != '\n',
    ensures
        line_end_of(t, s) == line_end_of(t, o),
    decreases o - s,
{
    if s < o {
        lemma_line_end_skip(t, s + 1, o);
    }
}

/// The scan for the end of a line stops exactly at the next newline.
pub proof fn lemma_line_end_exact(t: Seq<char>, s: int, p: int)
    requires
        0 <= s <= p < t.len(),
        forall|j: int| s <= j < p ==> t[j] != '\n',
        t[p] == '\n',
    ensures
        line_end_of(t, s) == p,
{
    lemma_line_end_skip(t, s, p);
}

/// Once a requested line index is past the last line, every later index is
/// past it too.
pub proof fn lemma_start_of_line_absorbs(t: Seq<char>, l1: int, l2: int)
    requires
        0 <= l1 <= l2,
        start_of_line(t, l1) > t.len(),
    ensures
        start_of_line(t, l2) > t.len(),
    decreases l2 - l1,
{
    if l1 < l2 {
        assert(line_end_of(t, start_of_line(t, l1)) == t.len());
        lemma_start_of_line_absorbs(t, l1 + 1, l2);
    }
}

/// The start of a line only depends on the text before the offset.
pub proof fn lemma_line_start_prefix(t1: Seq<char>, t2: Seq<char>, o: int)
    requires
        0 <= o,
        forall|j: int| 0 <= j < o ==> t1[j] == t2[j],
    ensures
        line_start_of(t1, o) == line_start_of(t2, o),
    decreases o,
{
    if o > 0 {
        lemma_line_start_prefix(t1, t2, o - 1);
    }
}

/// A span without newlines lies within one line: scanning for the line start
/// from either end of the span gives the same position.
pub proof fn lemma_line_start_skip(t: Seq<char>, a: int, b: int)
    requires
        0 <= a <= b,
        forall|j: int| a <= j < b ==> t[j] != '\n',
    ensures
        line_start_of(t, b) == line_start_of(t, a),
    decreases b - a,
{
    if a < b {
        lemma_line_start_skip(t, a, b - 1);
    }
}

// ---------------------------------------------------------------------------
// Executable position index.
// ---------------------------------------------------------------------------
/// The (line, column) address of `offset`, scanning line by line. Offsets
/// past the end of the text clamp to the end of the last line.
pub fn offset_to_line_column(text: &TextBuffer, offset: usize) -> (r: (usize, usize))
    ensures
        r.0 as int == offset_to_line_column_spec(text@, offset as int).0,
        r.1 as int == offset_to_line_column_spec(text@, offset as int).1,
{
    let n = text.len();
    let oc = if offset > n {
        n
    } else {
        offset
    };
    let mut line: usize = 0;
    let mut col: usize = 0;
    let mut i: usize = 0;
    while i < oc
        invariant
            0 <= i <= oc <= text@.len(),
            line as int == newlines_before(text@, i as int),
            col as int == i - line_start_of(text@, i as int),
        decreases oc - i,
    {
        proof {
            lemma_newlines_before_bounds(text@, i as int);
            lemma_line_start_bounds(text@, i as int);
        }
        if text.char_at(i) == '\n' {
            line = line + 1;
            col = 0;
        } else {
            col = col + 1;
        }
        i = i + 1;
    }
    (line, col)
}

/// The offset at the start of line `from`'s continuation: scans right from
/// `from` to the next newline or the end of the text.
pub(crate) fn line_end_from(text: &TextBuffer, from: usize) -> (r: usize)
    requires
        from <= text@.len(),
    ensures
        r as int == line_end_of(text@, from as int),
        from <= r <= text@.len(),
{
    let n = text.len();
    let mut j = from;
    while j < n
        invariant
            from <= j <= n,
            n == text@.len(),
            line_end_of(text@, from as int) == line_end_of(text@, j as int),
        decreases n - j,
    {
        if text.char_at(j) == '\n' {
            return j;
        }
        j = j + 1;
    }
    j
}

/// The offset of the given (line, column) address, walking scalar by scalar;
/// clamps to end-of-line and end-of-text as the model does.
pub fn line_column_to_offset(text: &TextBuffer, line: usize, column: usize) -> (r: usize)
    ensures
        r as int == line_column_to_offset_spec(text@, line as int, column as int),
        r <= text@.len(),
{
    let n = text.len();
    let mut cur: usize = 0;
    let mut s: usize = 0;
    while cur < line
        invariant
            0 <= cur <= line,
            s as int == start_of_line(text@, cur as int),
            s <= n,
            n == text@.len(),
        decreases line - cur,
    {
        let e = line_end_from(text, s);
        if e == n {
            proof {
                assert(start_of_line(text@, cur + 1) > text@.len());
                lemma_start_of_line_absorbs(text@, cur + 1, line as int);
            }
            return n;
        }
        s = e + 1;
        cur = cur + 1;
    }
    let e = line_end_from(text, s);
    if column <= e - s {
        s + column
    } else {
        e
    }
}

// ---------------------------------------------------------------------------
// Round-trip and clamping laws.
// ---------------------------------------------------------------------------
/// The start of the `newlines_before(t, o)`-th line is the start of the line
/// containing `o`.
proof fn lemma_start_of_line_of_offset(t: Seq<char>, o: int)
    requires
        0 <= o <= t.len(),
    ensures
        start_of_line(t, newlines_before(t, o)) == line_start_of(t, o),
    decreases o,
{
    if o > 0 {
        lemma_start_of_line_of_offset(t, o - 1);
        if t[o - 1] == '\n' {
            lemma_line_start_bounds(t, o - 1);
            lemma_no_newline_in_line(t, o - 1);
            lemma_line_end_exact(t, line_start_of(t, o - 1), o - 1);
            lemma_newlines_before_bounds(t, o - 1);
        }
    }
}

/// For every valid offset `o`, translating to a (line, column) address and
/// back returns exactly `o`.
pub proof fn lemma_position_round_trip(t: Seq<char>, o: int)
    requires
        0 <= o <= t.len(),
    ensures
        line_column_to_offset_spec(t, line_of(t, o), column_of(t, o)) == o,
{
    let line = newlines_before(t, o);
    let s = line_start_of(t, o);
    lemma_start_of_line_of_offset(t, o);
    lemma_line_start_bounds(t, o);
    lemma_no_newline_in_line(t, o);
    lemma_line_end_skip(t, s, o);
    lemma_line_end_bounds(t, o);
}

/// Translating any offset at or past the end of the text gives the same
/// address as translating the end of the text itself.
pub proof fn lemma_position_clamps(t: Seq<char>, o: int)
    requires
        o >= t.len(),
    ensures
        offset_to_line_column_spec(t, o) == offset_to_line_column_spec(t, t.len() as int),
{
}

} // verus!
