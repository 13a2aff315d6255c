//! Periodic-table lookup: the element records, the matcher that resolves a
//! query (atomic number, symbol or name) to one element, and the rendering of
//! an element as lines of text.

pub mod distance;
pub mod driver;
pub mod element;
pub mod laws;
pub mod matcher;
pub mod render;
pub mod style;
pub mod text;
