//! Making a candidate move on a position.

use crate::board_navigator::coord::Coord;
use crate::board_navigator::moves::{Move, Piece};
use crate::position::Position;
use vstd::prelude::*;

verus! {

/// Why a move could not be made.
#[derive(Debug, Clone, Copy, PartialEq, Eq, Structural)]
pub enum MoveError {
    /// The origin or the destination is no square of the board.
    InvalidSquareAddress,
    /// No piece stands on the origin.
    NoPieceAtSquare,
}

/// Makes a move on the position and gives the index of its destination.
///
/// The piece on the origin goes to the destination and takes what stands
/// there. A pawn that promotes arrives as its new kind; a pawn that takes
/// in passing also lifts the pawn it passes; a castling king brings its rook
/// over and ends its side's castling rights. A pawn's double step leaves
/// the square it passed as the en-passant target, and every other move
/// leaves none.
///
/// A move that cannot be made leaves the position as it was.
pub fn make_move(position: &mut Position, mv: &Move) -> (r: Result<i32, MoveError>)
    requires
        old(position).wf(),
    ensures
        final(position).wf(),
        match r {
            Ok(index) => {
                &&& mv.from.is_valid()
                &&& mv.to.is_valid()
                &&& old(position)@.at(mv.from) is Some
                &&& index == mv.to.index()
                &&& final(position)@ == old(position)@.applied(
                    mv.from,
                    mv.to,
                    mv.en_passant,
                    mv.castling,
                    mv.promotion,
                )
            },
            Err(MoveError::InvalidSquareAddress) => {
                &&& !(mv.from.is_valid() && mv.to.is_valid())
                &&& *final(position) == *old(position)
            },
            Err(MoveError::NoPieceAtSquare) => {
                &&& mv.from.is_valid()
                &&& mv.to.is_valid()
                &&& old(position)@.at(mv.from) is None
                &&& *final(position) == *old(position)
            },
        },
{
    if !mv.from.valid() || !mv.to.valid() {
        return Err(MoveError::InvalidSquareAddress);
    }
    let from_index = mv.from.to_index();
    let (side, kind) = match position.occupant(from_index) {
        Some(piece) => piece,
        None => {
            return Err(MoveError::NoPieceAtSquare);
        },
    };
    let mut placed = kind;
    if kind == Piece::P {
        if let Some(promoted) = mv.promotion {
            placed = promoted;
        }
        if mv.en_passant {
            let passed = Coord(mv.to.0, mv.from.1);
            let passed_index = passed.to_index();
            match position.occupant(passed_index) {
                Some((s, k)) => {
                    if s == side.opposite() && k == Piece::P {
                        position.remove_piece(passed_index);
                    }
                },
                None => {},
            }
        }
    }
    position.carry_out(&mv.from, &mv.to, side, kind, placed, &mv.castling);
    Ok(mv.to.to_index())
}

} // verus!
