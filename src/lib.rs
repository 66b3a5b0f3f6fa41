//! Core of a modal text editor: text, cursor and viewport, motions, reversible
//! edits with undo and redo, and word completion.
pub mod actions;
pub mod buffer;
pub mod completion;
pub mod editor;
pub mod error;
pub mod laws;
pub mod modes;
pub mod movement;
pub mod search;
pub mod text;
pub mod ui;
pub mod words;
