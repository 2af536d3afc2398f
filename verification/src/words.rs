use vstd::prelude::*;

use crate::text::TextBuffer;

verus! {

/// Whether a scalar value is part of a word: a word is a maximal run of
/// alphanumeric scalar values.
pub uninterp spec fn alnum(c: char) -> bool;

/// Relies on char::is_alphanumeric: whether a scalar value is alphabetic or
/// numeric is a property of the character alone.
#[verifier::external_body]
fn is_word_char(c: char) -> (r: bool)
    ensures
        r == alnum(c),
{
    c.is_alphanumeric()
}

// ---------------------------------------------------------------------------
// Model of word-boundary scanning.
// ---------------------------------------------------------------------------
/// Scanning right from `i`: the position of the first word character at or
/// after `i`, or the end of the text.
pub open spec fn next_word_start(t: Seq<char>, i: int) -> int
    decreases t.len() - i,
{
    if i >= t.len() {
        t.len() as int
    } else if alnum(t[i]) {
        i
    } else {
        next_word_start(t, i + 1)
    }
}

/// Scanning right from `i`: the position of the first non-word character at
/// or after `i`, or the end of the text.
pub open spec fn next_word_end(t: Seq<char>, i: int) -> int
    decreases t.len() - i,
{
    if i >= t.len() {
        t.len() as int
    } else if !alnum(t[i]) {
        i
    } else {
        next_word_end(t, i + 1)
    }
}

/// Moving right by one word: skip any leading non-word run, then skip the
/// word run, stopping at its end.
pub open spec fn word_boundary_right_spec(t: Seq<char>, o: int) -> int {
    next_word_end(t, next_word_start(t, o))
}

/// Scanning left from `i`: the position just after the first word character
/// before `i`, or the start of the text.
pub open spec fn prev_word_end(t: Seq<char>, i: int) -> int
    decreases i,
{
    if i <= 0 {
        0
    } else if alnum(t[i - 1]) {
        i
    } else {
        prev_word_end(t, i - 1)
    }
}

/// Scanning left from `i`: the position just after the first non-word
/// character before `i`, or the start of the text.
pub open spec fn prev_word_start(t: Seq<char>, i: int) -> int
    decreases i,
{
    if i <= 0 {
        0
    } else if !alnum(t[i - 1]) {
        i
    } else {
        prev_word_start(t, i - 1)
    }
}

/// Moving left by one word: skip any trailing non-word run, then skip the
/// word run, stopping at its start.
pub open spec fn word_boundary_left_spec(t: Seq<char>, o: int) -> int {
    prev_word_start(t, prev_word_end(t, o))
}

// ---------------------------------------------------------------------------
// Executable scans.
// ---------------------------------------------------------------------------
/// The offset one word to the right of `offset`, clamped to the end of the
/// text.
pub fn word_boundary_right(text: &TextBuffer, offset: usize) -> (r: usize)
    requires
        offset <= text@.len(),
    ensures
        r as int == word_boundary_right_spec(text@, offset as int),
        offset <= r <= text@.len(),
{
    let n = text.len();
    let mut i = offset;
    while i < n
        invariant
            offset <= i <= n,
            n == text@.len(),
            next_word_start(text@, offset as int) == next_word_start(text@, i as int),
        ensures
            offset <= i <= n,
            i as int == next_word_start(text@, offset as int),
        decreases n - i,
    {
        if is_word_char(text.char_at(i)) {
            break ;
        }
        i = i + 1;
    }
    let ghost start = i as int;
    while i < n
        invariant
            start <= i <= n,
            n == text@.len(),
            next_word_end(text@, start) == next_word_end(text@, i as int),
        ensures
            start <= i <= n,
            i as int == next_word_end(text@, start),
        decreases n - i,
    {
        if !is_word_char(text.char_at(i)) {
            break ;
        }
        i = i + 1;
    }
    i
}

/// The offset one word to the left of `offset`, clamped to the start of the
/// text.
pub fn word_boundary_left(text: &TextBuffer, offset: usize) -> (r: usize)
    requires
        offset <= text@.len(),
    ensures
        r as int == word_boundary_left_spec(text@, offset as int),
        r <= offset,
{
    let mut i = offset;
    while i > 0
        invariant
            0 <= i <= offset <= text@.len(),
            prev_word_end(text@, offset as int) == prev_word_end(text@, i as int),
        ensures
            0 <= i <= offset <= text@.len(),
            i as int == prev_word_end(text@, offset as int),
        decreases i,
    {
        if is_word_char(text.char_at(i - 1)) {
            break ;
        }
        i = i - 1;
    }
    let ghost wend = i as int;
    while i > 0
        invariant
            0 <= i <= wend <= text@.len(),
            prev_word_start(text@, wend) == prev_word_start(text@, i as int),
        ensures
            0 <= i <= wend,
            i as int == prev_word_start(text@, wend),
        decreases i,
    {
        if !is_word_char(text.char_at(i - 1)) {
            break ;
        }
        i = i - 1;
    }
    i
}

} // verus!
