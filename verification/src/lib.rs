//! Lays out tabular text as an aligned Markdown pipe table.
//!
//! Cells are measured by the number of terminal columns they occupy, each
//! column is made as wide as its widest cell, and every cell is padded with
//! spaces to that width.

pub mod align;
pub mod color;
pub mod columns;
pub mod frame;
pub mod input;
pub mod render;
pub mod roundtrip;
pub mod table;
pub mod width;

pub use align::ColumnAlign;
pub use color::ColorOpt;
pub use render::Span;
pub use table::{format_table, layout, TableError};
