//! Rendering of text tables: cells and columns that wrap, truncate, align and
//! pad their text, and rows that lay several of them side by side.

pub mod cell;
pub mod column;
pub mod lines;
pub mod row;
pub mod text;

pub use cell::Cell;
pub use column::Column;
pub use row::Row;
pub use text::Alignment;
