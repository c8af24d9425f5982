//! A grapheme-indexed text buffer with per-row syntax highlighting and search.

use vstd::prelude::*;

pub mod doc;
pub mod document;
pub mod edit;
pub mod filetype;
pub mod highlighting;
pub mod lines;
pub mod overlay;
pub mod render;
pub mod row;
pub mod scan;
pub mod search;
pub mod segment;
pub mod text;

pub use crate::doc::Doc;
pub use crate::document::Document;
pub use crate::filetype::FileType;
pub use crate::filetype::HighlightingOptions;
pub use crate::highlighting::Color;
pub use crate::highlighting::Palette;
pub use crate::highlighting::Type;
pub use crate::row::SingleRow;
pub use crate::search::SearchDirection;

verus! {

/// A place in a document: `x` is the column, counted in grapheme clusters, and `y` the row.
#[derive(Clone, Copy, Debug, PartialEq, Eq, Structural)]
pub struct Position {
    pub x: usize,
    pub y: usize,
}

impl Default for Position {
    /// The start of the document.
    fn default() -> (position: Self)
        ensures
            position == (Position { x: 0, y: 0 }),
    {
        Position { x: 0, y: 0 }
    }
}

} // verus!
