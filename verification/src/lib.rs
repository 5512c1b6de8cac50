//! Position representation and move generation for a chess engine core.
//!
//! The crate models the board as a set of 64-bit square sets with directional
//! shift semantics, precomputed attack tables (including magic-bitboard
//! perfect-hash lookup for sliding pieces), FEN decoding, king-safety
//! analysis and legal-move enumeration.

pub mod apply;
pub mod attacks;
pub mod bitboard;
pub mod board;
pub mod fen;
pub mod magic;
pub mod movegen;
pub mod moves;
pub mod piece;
pub mod safety;
pub mod square;
pub mod state;
pub mod tables;
pub mod text;

pub use bitboard::BitBoard;
pub use bitboard::Direction;
pub use board::Board;
pub use moves::Move;
pub use piece::{Colour, Piece, PieceType};
pub use square::Square;
pub use tables::AttackTables;
