//! The core of a multi-line REPL line editor: the command buffer and its
//! wrapped layout, the history, and the modes of the editor.

pub mod cmd;
pub mod coords;
pub mod grapheme;
pub mod history;
pub mod key;
pub mod layout;
pub mod line;
pub mod pattern;
pub mod render;
pub mod repl;
pub mod state;
