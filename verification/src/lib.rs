//! A bitboard-based chess board representation, together with the data
//! structures of a chess engine built on top of it.
//!
//! The engine's search, evaluation terms, move picker and front ends rest on
//! its workspace crate `chess`, which is not available, and are not here.
pub mod board;
pub mod bitboard;
pub mod movegen;
pub mod text;
pub mod fen;
pub mod parse;
pub mod evaluate;
pub mod zobrist;
pub mod transpositions;
pub mod search_tables;
pub mod search;
pub mod history_tables;
pub mod time_control;
pub mod move_picker;
pub mod play;
pub mod render;
pub mod game;
pub mod terminal;
