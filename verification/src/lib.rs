//! A text-document editing engine: an in-memory mutable text buffer with
//! caret tracking, line/column addressing, word-boundary navigation, editing
//! operations, and a syntax-highlighting pipeline that recomputes a flat
//! sequence of highlight span events after every edit.

pub mod document;
pub mod errors;
pub mod gutter;
pub mod highlight;
pub mod position;
pub mod text;
pub mod theme;
pub mod words;
