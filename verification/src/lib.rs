//! The text-editing core of a small terminal editor: rows of text addressed by
//! grapheme cluster, a buffer of rows with search, and a lexical highlighter.

pub mod editor;
pub mod file;
pub mod frame;
pub mod grapheme;
pub mod highlight;
pub mod row;
pub mod screen;
pub mod search;
pub mod syntax;
pub mod text;
