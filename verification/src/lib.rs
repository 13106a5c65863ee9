//! Core of a modal (vim-style) text editor: the text store with line/column
//! addressing and literal substring search, the cursor and motion engine, the
//! mode state machine with its command-line and search mini-languages, and the
//! configurable key-to-action resolver.
//!
//! Terminal rendering, the file-explorer sidebar and process startup live in a
//! separate front end; they feed key events into this crate and read the
//! resulting state (cursor, mode, visible line range, status) back out.

pub mod buffer;
pub mod editor;
pub mod input;
pub mod key;
pub mod keybinds;
pub mod laws;
pub mod lines;
pub mod mode;
pub mod rope;
pub mod strings;
