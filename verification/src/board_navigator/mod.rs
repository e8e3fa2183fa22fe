//! Squares, moves, move generation and attack detection.

pub mod applier;
pub mod board_scout;
pub mod coord;
pub mod generator;
pub mod moves;

pub use applier::make_move;
pub use applier::MoveError;
pub use board_scout::is_attacked;
pub use coord::Coord;
pub use generator::get_piece_movements;
pub use moves::CastlingSide;
pub use moves::Move;
pub use moves::Piece;
