//! A Game of Life grid engine: rectangular cell storage, bounds-safe
//! access, content-preserving resizing, and generation stepping with
//! bounded or toroidal neighbor counting.

pub mod grid;
pub mod laws;

pub use grid::Grid;
