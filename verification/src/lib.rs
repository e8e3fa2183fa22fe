//! A chess position engine: a 64-bit board representation, square
//! addressing, pseudo-legal move generation, attack detection and move
//! application, with every function specified and proved.

pub mod bitboard;
pub mod board_navigator;
pub mod fen;
pub mod pieces;
pub mod position;
pub mod text;
pub mod utils;
