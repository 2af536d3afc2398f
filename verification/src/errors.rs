use vstd::prelude::*;

verus! {

/// The errors the editing engine can report.
#[derive(Clone, Copy, Debug, PartialEq, Eq, Structural)]
pub enum EditorError {
    /// An offset, line or column lies outside the valid range of the buffer.
    OutOfBounds,
    /// The target object does not declare an editable-text capability.
    MissingCapability,
    /// A highlight query failed to compile against its grammar.
    InvalidQuery,
    /// The grammar handle itself is unusable.
    InvalidGrammar,
    /// The tokenizer failed on the current content.
    HighlightFailure,
    /// The external store rejected persistence of an edit.
    CommitFailure,
}

} // verus!
