//! A line-oriented text buffer and the key-driven editor around it.

pub mod editor;
pub mod laws;
pub mod text_buffer;

pub use editor::{Action, Buffer, Editor, Frame, InputFile, Key};
pub use text_buffer::{TextBuffer, Viewport};
