//! Rules core of a chess-variant engine: board state, per-shape movement
//! geometry, line-of-sight blocking, attacker enumeration and king safety.
pub mod piece;
pub mod geometry;
pub mod board;
pub mod laws;

pub use board::{Board, BoardPiece, Sight};
pub use piece::{Color, Coordinate, Location, Piece, Shape};
pub use piece::Color::{Black, White};
pub use piece::Shape::{Bishop, King, Knight, Pawn, Queen, Rook};
