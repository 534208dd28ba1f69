//! Core text-editing model of a line-oriented editor: a line buffer, a
//! cursor, a viewport, and the actions that move the cursor and edit text.
pub mod buffer;
pub mod editor;
pub mod laws;
pub mod model;
pub mod text;
pub mod types;

pub use buffer::Buffer;
pub use editor::Editor;
pub use text::{char_to_byte_index, slice_line};
pub use types::{Action, Cursor, Viewport};
