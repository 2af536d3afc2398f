use vstd::prelude::*;

use tree_sitter_highlight::{HighlightConfiguration, Highlighter};

use vstd::string::StringExecFns;
use vstd::utf8::is_scalar;

use crate::errors::EditorError;
use crate::highlight::{
    event_corresponds, events_wf, fallback_events, new_highlighter, normalize_events,
    query_verdict, raw_reinterprets, run_highlighter, tokenizer_output, HighlightEvent,
    Highlighting,
};
use crate::position::{
    column_of, line_column_to_offset, line_column_to_offset_spec, line_end_from, line_end_of,
    line_of, offset_to_line_column,
};
use crate::text::{
    decode_utf8_lossy, lossy_decode, strip_carriage_returns, strip_cr_spec, TextBuffer,
};
use crate::words::{
    word_boundary_left, word_boundary_left_spec, word_boundary_right, word_boundary_right_spec,
};

verus! {

/// A caret movement direction.
#[derive(Clone, Copy, Debug, PartialEq, Eq, Structural)]
pub enum CaretDirection {
    Left,
    Right,
    Up,
    Down,
}

/// A content edit applied at the caret.
#[derive(Clone, Copy, Debug, PartialEq, Eq, Structural)]
pub enum TextChange {
    /// Insert one scalar value.
    Character(char),
    /// Remove the scalar value before the caret; at the start of the text
    /// this does nothing.
    Backspace,
    /// Remove the scalar value at the caret; at the end of the text this
    /// does nothing.
    Delete,
}

/// Identity of the external object a document is bound to: a store handle,
/// an object id, and the buffer slot that holds the text.
#[derive(Clone, Copy, Debug, PartialEq, Eq, Structural)]
pub struct AssetBinding {
    pub store: u64,
    pub object: u64,
    pub slot: u32,
}

/// The capability an object declares when it can be edited as text: which
/// buffer slot holds the content, and optionally how to highlight it.
pub struct AnodeAspectI {
    /// The buffer slot of the object that holds the UTF-8 text.
    pub property: u32,
    /// The grammar binding for syntax highlighting, if the object's language
    /// has one.
    pub highlighting: Option<Highlighting>,
}

/// The abstract state of a document.
pub ghost struct DocumentView {
    /// The text content, as a sequence of Unicode scalar values.
    pub text: Seq<char>,
    /// The caret offset, always in `[0, text.len()]`.
    pub caret: int,
    /// The remembered column that vertical moves steer towards.
    pub caret_column: int,
    /// The cached highlight stream for the current text.
    pub highlights: Seq<HighlightEvent>,
    /// The external object this document is bound to, if any.
    pub asset: Option<AssetBinding>,
    /// The cached display title.
    pub title: Seq<char>,
    /// How many token kind names the highlight configuration recognizes.
    pub kinds: int,
    /// The compiled highlight configuration, when a grammar is bound.
    pub config: Option<HighlightConfiguration>,
}

/// One open text document: text buffer, caret, highlight state, and the
/// binding to its external asset.
pub struct DocumentState {
    asset: Option<AssetBinding>,
    title: String,
    highlighter: Highlighter,
    highlight_config: Option<HighlightConfiguration>,
    kinds: usize,
    text: TextBuffer,
    highlights: Vec<HighlightEvent>,
    caret: usize,
    caret_column: usize,
}

impl View for DocumentState {
    type V = DocumentView;

    closed spec fn view(&self) -> DocumentView {
        DocumentView {
            text: self.text@,
            caret: self.caret as int,
            caret_column: self.caret_column as int,
            highlights: self.highlights@,
            asset: self.asset,
            title: self.title@,
            kinds: self.kinds as int,
            config: self.highlight_config,
        }
    }
}

/// Everything except the caret state is unchanged.
pub open spec fn nav_only(pre: DocumentView, post: DocumentView) -> bool {
    &&& post.text == pre.text
    &&& post.highlights == pre.highlights
    &&& post.asset == pre.asset
    &&& post.title == pre.title
    &&& post.kinds == pre.kinds
    &&& post.config == pre.config
}

/// The binding, title and grammar configuration are unchanged (content
/// edits).
pub open spec fn binding_unchanged(pre: DocumentView, post: DocumentView) -> bool {
    &&& post.asset == pre.asset
    &&& post.title == pre.title
    &&& post.kinds == pre.kinds
    &&& post.config == pre.config
}

/// Whether the view is bound to the given store object.
pub open spec fn bound_to(v: DocumentView, store: u64, object: u64) -> bool {
    match v.asset {
        Some(b) => b.store == store && b.object == object,
        None => false,
    }
}

/// The single whole-text source span shown when no real highlighting is
/// available for a text.
pub open spec fn fallback_stream(t: Seq<char>) -> Seq<HighlightEvent> {
    seq![HighlightEvent::Source { start: 0usize, end: t.len() as usize }]
}

/// The cached highlight stream is exactly the recompute for the view's
/// current text: the tokenizer's output for the bound configuration,
/// reinterpreted over scalar values — or the single whole-text source span
/// when no grammar is bound, the tokenizer fails, its output cannot be
/// reinterpreted, or it is empty. Nothing stale can be observed: the cache
/// is a function of the configuration and the text alone.
pub open spec fn fresh_highlights(v: DocumentView) -> bool {
    match v.config {
        None => v.highlights == fallback_stream(v.text),
        Some(cfg) => match tokenizer_output(cfg, v.text) {
            None => v.highlights == fallback_stream(v.text),
            Some(raw) => if raw_reinterprets(raw, v.text, v.kinds) && raw.len() > 0 {
                v.highlights.len() == raw.len() && (forall|i: int|
                    0 <= i < raw.len() ==> event_corresponds(raw[i], v.highlights[i], v.text))
            } else {
                v.highlights == fallback_stream(v.text)
            },
        },
    }
}

/// The caret state after one move, per the navigation rules: horizontal
/// moves recompute the remembered column; vertical moves steer towards it
/// and leave it untouched, also when moving up from the first line or down
/// from the last line clamps the caret to the start or end of the text.
pub open spec fn caret_after_move(
    t: Seq<char>,
    caret: int,
    col: int,
    direction: CaretDirection,
    word: bool,
) -> (int, int) {
    match direction {
        CaretDirection::Left => {
            let c = if word {
                word_boundary_left_spec(t, caret)
            } else if caret > 0 {
                caret - 1
            } else {
                0
            };
            (c, column_of(t, c))
        },
        CaretDirection::Right => {
            let c = if word {
                word_boundary_right_spec(t, caret)
            } else if caret < t.len() {
                caret + 1
            } else {
                caret
            };
            (c, column_of(t, c))
        },
        CaretDirection::Up => {
            if line_of(t, caret) == 0 {
                (0, col)
            } else {
                (line_column_to_offset_spec(t, line_of(t, caret) - 1, col), col)
            }
        },
        CaretDirection::Down => {
            if line_end_of(t, caret) == t.len() {
                (t.len() as int, col)
            } else {
                (line_column_to_offset_spec(t, line_of(t, caret) + 1, col), col)
            }
        },
    }
}

/// The text after one content edit at the caret.
pub open spec fn text_after_change(t: Seq<char>, caret: int, change: TextChange) -> Seq<char> {
    match change {
        TextChange::Character(c) => t.insert(caret, c),
        TextChange::Backspace => if caret > 0 {
            t.remove(caret - 1)
        } else {
            t
        },
        TextChange::Delete => if caret < t.len() {
            t.remove(caret)
        } else {
            t
        },
    }
}

/// The caret after one content edit: immediately after the edit point.
pub open spec fn caret_after_change(t: Seq<char>, caret: int, change: TextChange) -> int {
    match change {
        TextChange::Character(c) => caret + 1,
        TextChange::Backspace => if caret > 0 {
            caret - 1
        } else {
            0
        },
        TextChange::Delete => caret,
    }
}

/// Whether the edit modifies the text at all: backspace at the start and
/// delete at the end are no-ops.
pub open spec fn change_modifies(t: Seq<char>, caret: int, change: TextChange) -> bool {
    match change {
        TextChange::Character(c) => true,
        TextChange::Backspace => caret > 0,
        TextChange::Delete => caret < t.len(),
    }
}

/// Relies on char::from_u32: returns a character exactly for Unicode scalar
/// values, and the returned character has exactly the given value.
#[verifier::external_body]
fn char_from_u32(v: u32) -> (r: Option<char>)
    ensures
        r is Some <==> is_scalar(v),
        (match r {
            Some(c) => c as u32 == v,
            None => true,
        }),
{
    char::from_u32(v)
}

impl DocumentState {
    /// The document's invariant: the caret is a valid offset, and the cached
    /// highlight stream is well formed for the current text and is exactly
    /// its recompute — a mutation is never observable without the matching
    /// highlight recompute.
    pub open spec fn wf(&self) -> bool {
        &&& 0 <= self@.caret <= self@.text.len()
        &&& 0 <= self@.caret_column
        &&& 0 <= self@.kinds
        &&& events_wf(self@.highlights, self@.text.len() as int, self@.kinds)
        &&& fresh_highlights(self@)
    }

    /// A fresh, empty, unbound document.
    pub fn new() -> (r: DocumentState)
        ensures
            r.wf(),
            r@.text.len() == 0,
            r@.caret == 0,
            r@.caret_column == 0,
            r@.asset is None,
            r@.config is None,
            r@.title == "untitled"@,
            r@.highlights == seq![HighlightEvent::Source { start: 0usize, end: 0usize }],
    {
        DocumentState {
            asset: None,
            title: String::from_str("untitled"),
            highlighter: new_highlighter(),
            highlight_config: None,
            kinds: 0,
            text: TextBuffer::new(),
            highlights: fallback_events(0),
            caret: 0,
            caret_column: 0,
        }
    }

    /// The external object this document is bound to, if any.
    pub fn asset(&self) -> (r: Option<AssetBinding>)
        ensures
            r == self@.asset,
    {
        self.asset
    }

    /// The cached display title.
    pub fn title(&self) -> (r: &String)
        ensures
            r@ == self@.title,
    {
        &self.title
    }

    /// The current text.
    pub fn text(&self) -> (r: &TextBuffer)
        ensures
            r@ == self@.text,
    {
        &self.text
    }

    /// The cached highlight stream for the current text.
    pub fn highlights(&self) -> (r: &Vec<HighlightEvent>)
        ensures
            r@ == self@.highlights,
    {
        &self.highlights
    }

    /// The caret offset.
    pub fn caret(&self) -> (r: usize)
        ensures
            r as int == self@.caret,
    {
        self.caret
    }

    /// The caret's (line, column) address.
    pub fn caret_line_column(&self) -> (r: (usize, usize))
        ensures
            r.0 as int == line_of(self@.text, self@.caret),
            r.1 as int == column_of(self@.text, self@.caret),
    {
        offset_to_line_column(&self.text, self.caret)
    }

    /// Everything a renderer needs: the text, the highlight stream, and the
    /// caret's (line, column) address.
    pub fn render_model(&self) -> (r: (&TextBuffer, &Vec<HighlightEvent>, (usize, usize)))
        ensures
            r.0@ == self@.text,
            r.1@ == self@.highlights,
            r.2.0 as int == line_of(self@.text, self@.caret),
            r.2.1 as int == column_of(self@.text, self@.caret),
    {
        let lc = self.caret_line_column();
        (&self.text, &self.highlights, lc)
    }

    /// Re-derives the remembered column from the caret's actual position.
    pub fn set_caret_column_to_current(&mut self)
        requires
            old(self).wf(),
        ensures
            final(self).wf(),
            nav_only(old(self)@, final(self)@),
            final(self)@.caret == old(self)@.caret,
            final(self)@.caret_column == column_of(old(self)@.text, old(self)@.caret),
    {
        let lc = offset_to_line_column(&self.text, self.caret);
        self.caret_column = lc.1;
    }

    /// Moves the caret to the given (line, column) address, clamping to the
    /// end of the line and to the end of the text where necessary. The
    /// remembered column is left untouched, so vertical moves keep steering
    /// towards it; call [`Self::set_caret_column_to_current`] to reset it.
    pub fn set_caret_line_column(&mut self, line: usize, column: usize)
        requires
            old(self).wf(),
        ensures
            final(self).wf(),
            nav_only(old(self)@, final(self)@),
            final(self)@.caret == line_column_to_offset_spec(
                old(self)@.text,
                line as int,
                column as int,
            ),
            final(self)@.caret_column == old(self)@.caret_column,
    {
        self.caret = line_column_to_offset(&self.text, line, column);
    }

    /// Moves the caret one character or one word to the left, clamping at
    /// the start of the text, and re-derives the remembered column.
    pub fn apply_input_left(&mut self, skip_word: bool)
        requires
            old(self).wf(),
        ensures
            final(self).wf(),
            nav_only(old(self)@, final(self)@),
            (final(self)@.caret, final(self)@.caret_column) == caret_after_move(
                old(self)@.text,
                old(self)@.caret,
                old(self)@.caret_column,
                CaretDirection::Left,
                skip_word,
            ),
    {
        if skip_word {
            self.caret = word_boundary_left(&self.text, self.caret);
        } else if self.caret > 0 {
            self.caret = self.caret - 1;
        }
        self.set_caret_column_to_current();
    }

    /// Moves the caret one character or one word to the right, clamping at
    /// the end of the text, and re-derives the remembered column.
    pub fn apply_input_right(&mut self, skip_word: bool)
        requires
            old(self).wf(),
        ensures
            final(self).wf(),
            nav_only(old(self)@, final(self)@),
            (final(self)@.caret, final(self)@.caret_column) == caret_after_move(
                old(self)@.text,
                old(self)@.caret,
                old(self)@.caret_column,
                CaretDirection::Right,
                skip_word,
            ),
    {
        if skip_word {
            self.caret = word_boundary_right(&self.text, self.caret);
        } else {
            let n = self.text.len();
            if self.caret < n {
                self.caret = self.caret + 1;
            }
        }
        self.set_caret_column_to_current();
    }

    /// Moves the caret one line up, steering towards the remembered column;
    /// from the first line it moves to the start of the text. The remembered
    /// column is never touched by a vertical move.
    pub fn apply_input_up(&mut self)
        requires
            old(self).wf(),
        ensures
            final(self).wf(),
            nav_only(old(self)@, final(self)@),
            (final(self)@.caret, final(self)@.caret_column) == caret_after_move(
                old(self)@.text,
                old(self)@.caret,
                old(self)@.caret_column,
                CaretDirection::Up,
                false,
            ),
    {
        let lc = offset_to_line_column(&self.text, self.caret);
        if lc.0 == 0 {
            self.caret = 0;
        } else {
            self.caret = line_column_to_offset(&self.text, lc.0 - 1, self.caret_column);
        }
    }

    /// Moves the caret one line down, steering towards the remembered
    /// column; from the last line it moves to the end of the text. The
    /// remembered column is never touched by a vertical move.
    pub fn apply_input_down(&mut self)
        requires
            old(self).wf(),
        ensures
            final(self).wf(),
            nav_only(old(self)@, final(self)@),
            (final(self)@.caret, final(self)@.caret_column) == caret_after_move(
                old(self)@.text,
                old(self)@.caret,
                old(self)@.caret_column,
                CaretDirection::Down,
                false,
            ),
    {
        let n = self.text.len();
        let e = line_end_from(&self.text, self.caret);
        if e == n {
            self.caret = n;
        } else {
            let lc = offset_to_line_column(&self.text, self.caret);
            proof {
                crate::position::lemma_newlines_before_bounds(self@.text, self@.caret);
            }
            self.caret = line_column_to_offset(&self.text, lc.0 + 1, self.caret_column);
        }
    }

    /// Moves the caret in the given direction, at character or word
    /// granularity. A pure navigation: the text and highlight state are
    /// untouched.
    pub fn move_caret(&mut self, direction: CaretDirection, word: bool)
        requires
            old(self).wf(),
        ensures
            final(self).wf(),
            nav_only(old(self)@, final(self)@),
            (final(self)@.caret, final(self)@.caret_column) == caret_after_move(
                old(self)@.text,
                old(self)@.caret,
                old(self)@.caret_column,
                direction,
                word,
            ),
    {
        match direction {
            CaretDirection::Left => self.apply_input_left(word),
            CaretDirection::Right => self.apply_input_right(word),
            CaretDirection::Up => self.apply_input_up(),
            CaretDirection::Down => self.apply_input_down(),
        }
    }

    /// Recomputes the cached highlight stream for the current text: runs the
    /// tokenizer when a grammar is bound and its output passes validation,
    /// and falls back to the single whole-text source span otherwise.
    fn rehighlight(&mut self)
        ensures
            final(self)@ == (DocumentView { highlights: final(self)@.highlights, ..old(self)@ }),
            events_wf(final(self)@.highlights, old(self)@.text.len() as int, old(self)@.kinds),
            fresh_highlights(final(self)@),
            old(self)@.config is None ==> final(self)@.highlights == seq![
                HighlightEvent::Source { start: 0usize, end: old(self)@.text.len() as usize },
            ],
    {
        let n = self.text.len();
        match &self.highlight_config {
            None => {
                self.highlights = fallback_events(n);
                proof {
                    assert(self@.highlights =~= fallback_stream(self@.text));
                }
            },
            Some(config) => {
                let computed = run_highlighter(&mut self.highlighter, config, self.text.chars());
                proof {
                    assert(self@.config == Some(*config));
                }
                match computed {
                    None => {
                        self.highlights = fallback_events(n);
                        proof {
                            assert(self@.highlights =~= fallback_stream(self@.text));
                        }
                    },
                    Some(raw) => {
                        let normalized = normalize_events(&raw, self.text.chars(), self.kinds);
                        match normalized {
                            Some(events) => {
                                if events.len() > 0 {
                                    self.highlights = events;
                                } else {
                                    self.highlights = fallback_events(n);
                                    proof {
                                        assert(self@.highlights =~= fallback_stream(self@.text));
                                    }
                                }
                            },
                            None => {
                                self.highlights = fallback_events(n);
                                proof {
                                    assert(self@.highlights =~= fallback_stream(self@.text));
                                }
                            },
                        }
                    },
                }
            },
        }
    }

    /// Inserts one scalar value at the caret, moves the caret to just after
    /// it, re-derives the remembered column, and recomputes the highlight
    /// stream. Always modifies the text; the returned flag says a commit to
    /// the bound asset is owed.
    pub fn apply_input_character(&mut self, character: char) -> (r: bool)
        requires
            old(self).wf(),
        ensures
            final(self).wf(),
            r == true,
            binding_unchanged(old(self)@, final(self)@),
            final(self)@.text == text_after_change(
                old(self)@.text,
                old(self)@.caret,
                TextChange::Character(character),
            ),
            final(self)@.caret == old(self)@.caret + 1,
            final(self)@.caret_column == column_of(final(self)@.text, final(self)@.caret),
            old(self)@.config is None ==> final(self)@.highlights == seq![
                HighlightEvent::Source { start: 0usize, end: final(self)@.text.len() as usize },
            ],
    {
        self.text.insert_char_at(self.caret, character);
        let n = self.text.len();
        assert(self.caret < n);
        self.caret = self.caret + 1;
        let lc = offset_to_line_column(&self.text, self.caret);
        self.caret_column = lc.1;
        self.rehighlight();
        true
    }

    /// Removes the scalar value before the caret and moves the caret onto
    /// its place; at the start of the text this is a no-op, not an error.
    pub fn apply_input_backspace(&mut self) -> (r: bool)
        requires
            old(self).wf(),
        ensures
            final(self).wf(),
            r == change_modifies(old(self)@.text, old(self)@.caret, TextChange::Backspace),
            !r ==> final(self)@ == old(self)@,
            r ==> binding_unchanged(old(self)@, final(self)@) && final(self)@.text
                == text_after_change(old(self)@.text, old(self)@.caret, TextChange::Backspace)
                && final(self)@.caret == old(self)@.caret - 1 && final(self)@.caret_column
                == column_of(final(self)@.text, final(self)@.caret) && (old(self)@.config is None
                ==> final(self)@.highlights == seq![
                HighlightEvent::Source { start: 0usize, end: final(self)@.text.len() as usize },
            ]),
    {
        if self.caret == 0 {
            return false;
        }
        let _removed = self.text.remove_char_at(self.caret - 1);
        self.caret = self.caret - 1;
        let lc = offset_to_line_column(&self.text, self.caret);
        self.caret_column = lc.1;
        self.rehighlight();
        true
    }

    /// Removes the scalar value at the caret; at the end of the text this is
    /// a no-op, not an error. The caret does not move.
    pub fn apply_input_delete(&mut self) -> (r: bool)
        requires
            old(self).wf(),
        ensures
            final(self).wf(),
            r == change_modifies(old(self)@.text, old(self)@.caret, TextChange::Delete),
            !r ==> final(self)@ == old(self)@,
            r ==> binding_unchanged(old(self)@, final(self)@) && final(self)@.text
                == text_after_change(old(self)@.text, old(self)@.caret, TextChange::Delete)
                && final(self)@.caret == old(self)@.caret && final(self)@.caret_column
                == column_of(final(self)@.text, final(self)@.caret) && (old(self)@.config is None
                ==> final(self)@.highlights == seq![
                HighlightEvent::Source { start: 0usize, end: final(self)@.text.len() as usize },
            ]),
    {
        let n = self.text.len();
        if self.caret == n {
            return false;
        }
        let _removed = self.text.remove_char_at(self.caret);
        let lc = offset_to_line_column(&self.text, self.caret);
        self.caret_column = lc.1;
        self.rehighlight();
        true
    }

    /// Inserts spaces at the caret up to the next multiple of four columns:
    /// between one and four spaces, never zero. The caret ends just after
    /// the inserted spaces.
    pub fn apply_input_tab(&mut self) -> (r: bool)
        requires
            old(self).wf(),
        ensures
            final(self).wf(),
            r == true,
            binding_unchanged(old(self)@, final(self)@),
            ({
                let t = old(self)@.text;
                let o = old(self)@.caret;
                let k = 4 - column_of(t, o) % 4;
                &&& 1 <= k <= 4
                &&& final(self)@.text == t.take(o) + Seq::new(k as nat, |j: int| ' ') + t.skip(o)
                &&& final(self)@.caret == o + k
                &&& final(self)@.caret_column == column_of(final(self)@.text, final(self)@.caret)
            }),
            old(self)@.config is None ==> final(self)@.highlights == seq![
                HighlightEvent::Source { start: 0usize, end: final(self)@.text.len() as usize },
            ],
    {
        let lc = offset_to_line_column(&self.text, self.caret);
        let count: usize = 4 - lc.1 % 4;
        let ghost t0 = self.text@;
        let ghost o = self.caret as int;
        proof {
            assert(t0.take(o) + Seq::new(0nat, |j: int| ' ') + t0.skip(o) =~= t0);
        }
        let mut i: usize = 0;
        while i < count
            invariant
                i <= count,
                self.caret as int == o,
                0 <= o <= t0.len(),
                self.text@ == t0.take(o) + Seq::new(i as nat, |j: int| ' ') + t0.skip(o),
                self@.asset == old(self)@.asset,
                self@.title == old(self)@.title,
                self@.kinds == old(self)@.kinds,
                self@.config == old(self)@.config,
                self@.highlights == old(self)@.highlights,
                self@.caret_column == old(self)@.caret_column,
            decreases count - i,
        {
            let m = self.text.len();
            assert(self.caret + i <= m);
            self.text.insert_char_at(self.caret + i, ' ');
            proof {
                assert(self.text@ =~= t0.take(o) + Seq::new((i + 1) as nat, |j: int| ' ')
                    + t0.skip(o));
            }
            i = i + 1;
        }
        let n = self.text.len();
        assert(self.caret + count <= n);
        self.caret = self.caret + count;
        let lc2 = offset_to_line_column(&self.text, self.caret);
        self.caret_column = lc2.1;
        self.rehighlight();
        true
    }

    /// Applies one content edit at the caret: the text change, the caret
    /// rule (the caret ends just after the edit point and the remembered
    /// column is re-derived), and the highlight recompute. Returns whether
    /// the text changed, i.e. whether a commit to the bound asset is owed.
    pub fn apply_text_change(&mut self, change: TextChange) -> (r: bool)
        requires
            old(self).wf(),
        ensures
            final(self).wf(),
            r == change_modifies(old(self)@.text, old(self)@.caret, change),
            !r ==> final(self)@ == old(self)@,
            r ==> binding_unchanged(old(self)@, final(self)@) && final(self)@.text
                == text_after_change(old(self)@.text, old(self)@.caret, change)
                && final(self)@.caret == caret_after_change(old(self)@.text, old(self)@.caret, change)
                && final(self)@.caret_column == column_of(final(self)@.text, final(self)@.caret),
    {
        match change {
            TextChange::Character(c) => self.apply_input_character(c),
            TextChange::Backspace => self.apply_input_backspace(),
            TextChange::Delete => self.apply_input_delete(),
        }
    }

    /// Routes one raw text-input codepoint: 8 is backspace, 9 is tab, 13
    /// inserts a newline, any other control codepoint is ignored, and
    /// everything else inserts the scalar value it denotes (or a space when
    /// it denotes none). Returns whether the text changed.
    pub fn apply_codepoint(&mut self, codepoint: u32) -> (r: bool)
        requires
            old(self).wf(),
        ensures
            final(self).wf(),
            codepoint == 8 ==> r == change_modifies(
                old(self)@.text,
                old(self)@.caret,
                TextChange::Backspace,
            ) && (!r ==> final(self)@ == old(self)@) && (r ==> final(self)@.text
                == text_after_change(old(self)@.text, old(self)@.caret, TextChange::Backspace)
                && final(self)@.caret == old(self)@.caret - 1),
            codepoint == 9 ==> r == true && ({
                let k = 4 - column_of(old(self)@.text, old(self)@.caret) % 4;
                final(self)@.text == old(self)@.text.take(old(self)@.caret) + Seq::new(
                    k as nat,
                    |j: int| ' ',
                ) + old(self)@.text.skip(old(self)@.caret) && final(self)@.caret == old(self)@.caret
                    + k
            }),
            codepoint == 13 ==> r == true && final(self)@.text == old(self)@.text.insert(
                old(self)@.caret,
                '\n',
            ) && final(self)@.caret == old(self)@.caret + 1,
            codepoint >= 32 ==> r == true && final(self)@.text.len() == old(self)@.text.len() + 1
                && final(self)@.caret == old(self)@.caret + 1 && final(self)@.text
                == old(self)@.text.insert(
                old(self)@.caret,
                final(self)@.text[old(self)@.caret],
            ) && (is_scalar(codepoint) ==> final(self)@.text[old(self)@.caret] as u32 == codepoint)
                && (!is_scalar(codepoint) ==> final(self)@.text[old(self)@.caret] == ' '),
            codepoint < 32 && codepoint != 8 && codepoint != 9 && codepoint != 13 ==> r == false
                && final(self)@ == old(self)@,
    {
        if codepoint == 8 {
            self.apply_input_backspace()
        } else if codepoint == 9 {
            self.apply_input_tab()
        } else if codepoint == 13 {
            self.apply_input_character('\n')
        } else if codepoint < 32 {
            false
        } else {
            let c: char = match char_from_u32(codepoint) {
                Some(c) => c,
                None => ' ',
            };
            let r = self.apply_input_character(c);
            proof {
                assert(old(self)@.text.insert(old(self)@.caret, c)[old(self)@.caret] == c);
            }
            r
        }
    }

    /// Binds this document to an object of the external store and loads its
    /// content. Binding to the object the document already shows is a no-op.
    /// An object without the editable-text capability is refused with
    /// `MissingCapability`. Otherwise the raw bytes are decoded as UTF-8
    /// (lossily), carriage returns are stripped, the caret moves to the
    /// start of the text, the highlight configuration is rebuilt from the
    /// capability's grammar binding — falling back to no highlighting when
    /// it does not compile — and the highlight stream is recomputed.
    pub fn load_from_asset(
        &mut self,
        store: u64,
        object: u64,
        aspect: Option<&AnodeAspectI>,
        bytes: &Vec<u8>,
        token_kinds: &Vec<String>,
    ) -> (r: Result<(), EditorError>)
        requires
            old(self).wf(),
        ensures
            final(self).wf(),
            bound_to(old(self)@, store, object) ==> r == Ok::<(), EditorError>(()) && final(self)@
                == old(self)@,
            !bound_to(old(self)@, store, object) && aspect is None ==> r == Err::<
                (),
                EditorError,
            >(EditorError::MissingCapability) && final(self)@ == old(self)@,
            aspect is Some && !bound_to(old(self)@, store, object) ==> ({
                &&& r == Ok::<(), EditorError>(())
                &&& final(self)@.text == strip_cr_spec(lossy_decode(bytes@))
                &&& final(self)@.caret == 0
                &&& final(self)@.caret_column == 0
                &&& final(self)@.asset == (Some(
                    AssetBinding { store, object, slot: aspect.unwrap().property },
                ))
                &&& final(self)@.title == old(self)@.title
                &&& (aspect.unwrap().highlighting is None ==> final(self)@.config is None)
                &&& (aspect.unwrap().highlighting matches Some(h) ==> ((final(self)@.config is Some)
                    <==> query_verdict(
                    h.language,
                    h.highlight_query@,
                    h.injection_query@,
                    h.locals_query@,
                ) is None))
                &&& (final(self)@.config is Some ==> final(self)@.kinds == token_kinds@.len())
                &&& (final(self)@.config is None ==> final(self)@.highlights == seq![
                    HighlightEvent::Source {
                        start: 0usize,
                        end: final(self)@.text.len() as usize,
                    },
                ])
            }),
    {
        match &self.asset {
            Some(b) => {
                if b.store == store && b.object == object {
                    return Ok(());
                }
            },
            None => {},
        }
        let a = match aspect {
            Some(a) => a,
            None => {
                return Err(EditorError::MissingCapability);
            },
        };
        let decoded = decode_utf8_lossy(bytes);
        let stripped = strip_carriage_returns(&decoded);
        self.text = TextBuffer::from_chars(stripped);
        self.caret = 0;
        self.caret_column = 0;
        self.asset = Some(AssetBinding { store, object, slot: a.property });
        self.highlight_config = None;
        self.kinds = 0;
        match &a.highlighting {
            Some(h) => {
                match h.configure(token_kinds) {
                    Ok(config) => {
                        self.highlight_config = Some(config);
                        self.kinds = token_kinds.len();
                    },
                    Err(_) => {},
                }
            },
            None => {},
        }
        self.rehighlight();
        Ok(())
    }

    /// Recomputes the cached display title from the given asset metadata;
    /// the shell reads the metadata from the store this document is bound
    /// to, and it is ignored for an unbound document.
    pub fn refresh_title(&mut self, display_name: &str, extension: Option<&str>, saved: bool) -> (r:
        &String)
        requires
            old(self).wf(),
        ensures
            final(self).wf(),
            final(self)@ == (DocumentView { title: final(self)@.title, ..old(self)@ }),
            final(self)@.title == title_of(
                old(self)@.asset is Some,
                display_name@,
                (match extension {
                    Some(e) => Some(e@),
                    None => None::<Seq<char>>,
                }),
                saved,
            ),
            r@ == final(self)@.title,
    {
        if self.asset.is_none() {
            self.title = String::from_str("untitled");
        } else {
            let mut t = String::from_str(display_name);
            match extension {
                Some(e) => {
                    t.append(".");
                    t.append(e);
                    if !saved {
                        t.append("*");
                    }
                },
                None => {},
            }
            self.title = t;
        }
        &self.title
    }
}

/// The highlight partition law at the document level: whatever the text and
/// whatever grammar configuration is bound (or none), the source ranges of
/// the cached highlight stream sum to exactly the text length, and the
/// highlight markers nest without crossing.
pub proof fn lemma_document_highlights_partition(d: &DocumentState)
    requires
        d.wf(),
    ensures
        crate::highlight::source_span_total(d@.highlights) == d@.text.len(),
        crate::highlight::events_depth(d@.highlights) == 0,
        forall|i: int|
            0 <= i <= d@.highlights.len() ==> crate::highlight::events_depth(
                d@.highlights.take(i),
            ) >= 0,
{
    crate::highlight::lemma_highlight_partition(d@.highlights, d@.text.len() as int, d@.kinds);
}

/// The tab law: inserting `4 - column % 4` spaces at the caret advances the
/// caret's column by exactly that count, to the next multiple of four —
/// between one and four columns further, never zero.
pub proof fn lemma_tab_advances_column(t: Seq<char>, o: int)
    requires
        0 <= o <= t.len(),
    ensures
        ({
            let k = 4 - column_of(t, o) % 4;
            let t2 = t.take(o) + Seq::new(k as nat, |j: int| ' ') + t.skip(o);
            &&& 1 <= k <= 4
            &&& column_of(t2, o + k) == column_of(t, o) + k
            &&& column_of(t2, o + k) % 4 == 0
        }),
{
    crate::position::lemma_line_start_bounds(t, o);
    let col = column_of(t, o);
    let k = 4 - col % 4;
    let t2 = t.take(o) + Seq::new(k as nat, |j: int| ' ') + t.skip(o);
    assert(t2.len() == t.len() + k);
    assert(forall|j: int| 0 <= j < o ==> t2[j] == t[j]);
    assert(forall|j: int| o <= j < o + k ==> t2[j] == ' ');
    crate::position::lemma_line_start_prefix(t, t2, o);
    crate::position::lemma_line_start_skip(t2, o, o + k);
    assert(column_of(t2, o + k) == o + k - crate::position::line_start_of(t, o));
}

/// The display title derived from asset metadata: the object's display name;
/// when the object's type declares a file extension, a dot and the extension
/// follow, with a trailing star when the asset has unsaved changes. An
/// unbound document is titled "untitled".
pub open spec fn title_of(
    bound: bool,
    name: Seq<char>,
    extension: Option<Seq<char>>,
    saved: bool,
) -> Seq<char> {
    if !bound {
        "untitled"@
    } else {
        match extension {
            Some(e) => if saved {
                name + "."@ + e
            } else {
                name + "."@ + e + "*"@
            },
            None => name,
        }
    }
}

} // verus!
