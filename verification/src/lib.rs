//! A small modal text editor's core: grapheme-accurate lines, a per-line
//! syntax highlighter, the line buffer, and the cursor and viewport model.

pub mod document;
pub mod editor;
pub mod filetype;
pub mod grapheme;
pub mod highlighting;
pub mod row;
pub mod screen;
pub mod syntax;
pub mod terminal;
pub mod units;

pub use document::Document;
pub use editor::{Editor, Position};
pub use filetype::FileType;
pub use row::Row;
pub use terminal::Size;
