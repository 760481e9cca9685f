//! Move encoding, castling and legal move generation.
pub mod castling;
pub mod moves;
