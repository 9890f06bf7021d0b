//! A verified chessboard model: a 64-square board with the standard starting
//! position, a parser from algebraic square notation to board indices, an
//! unconditional square-to-square move operator, and a text renderer.
//!
//! No chess rules are enforced: the move operator is a raw state transition
//! that vacates the source square and overwrites the destination.

pub mod board;
pub mod error;
pub mod notation;
pub mod piece;
pub mod render;
