//! A small line-oriented text editor's verified core.
//!
//! The library models an editable document as a sequence of rows of
//! characters, tracks a cursor and a scroll offset over a fixed-size
//! viewport, and applies single-keystroke edits.  Terminal input and
//! output stay outside the library; callers hand it plain values
//! (decoded commands, file contents as characters) and receive plain
//! values back (rendered slices, the text to persist).

pub mod document;
pub mod editor;
pub mod motion;
pub mod row;
pub mod terminal;
pub mod text;
