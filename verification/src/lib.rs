//! Conway's Game of Life: grid containers, the life rule's neighbour count,
//! and a streaming parser for the text format that describes a starting grid.

pub mod env;
pub mod error;
pub mod file;
pub mod grid;
pub mod life;
pub mod parser;
pub mod symbols;
pub mod text;
