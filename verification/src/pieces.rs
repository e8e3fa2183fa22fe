//! The two sides, the piece kinds as board indices, and the glyphs that
//! stand for the pieces on a drawn board.

use vstd::prelude::*;

verus! {

/// One of the two players.
#[derive(Debug, Clone, Copy, PartialEq, Eq, Structural)]
pub enum Side {
    White,
    Black,
}

impl Side {
    /// The other player.
    pub open spec fn spec_opposite(self) -> Side {
        match self {
            Side::White => Side::Black,
            Side::Black => Side::White,
        }
    }

    /// The rank step that is forward for this side: up for white, down for
    /// black.
    pub open spec fn spec_forward(self) -> int {
        match self {
            Side::White => 1,
            Side::Black => -1,
        }
    }

    /// The side that a direction sign stands for: white for a positive
    /// sign, black for any other.
    pub open spec fn spec_of_direction(direction: int) -> Side {
        if direction > 0 {
            Side::White
        } else {
            Side::Black
        }
    }

    /// This side's place in a position's pair of side boards.
    pub open spec fn spec_index(self) -> int {
        match self {
            Side::White => 0,
            Side::Black => 1,
        }
    }

    /// The other player.
    #[verifier::when_used_as_spec(spec_opposite)]
    pub fn opposite(self) -> (r: Side)
        ensures
            r == self.spec_opposite(),
    {
        match self {
            Side::White => Side::Black,
            Side::Black => Side::White,
        }
    }

    /// The rank step that is forward for this side.
    pub fn forward(self) -> (r: i32)
        ensures
            r == self.spec_forward(),
    {
        match self {
            Side::White => 1,
            Side::Black => -1,
        }
    }

    /// The side that a direction sign stands for.
    pub fn of_direction(direction: i32) -> (r: Side)
        ensures
            r == Side::spec_of_direction(direction as int),
    {
        if direction > 0 {
            Side::White
        } else {
            Side::Black
        }
    }

    /// This side's place in a position's pair of side boards.
    pub fn index(self) -> (r: usize)
        ensures
            r == self.spec_index(),
    {
        match self {
            Side::White => 0,
            Side::Black => 1,
        }
    }
}

/// The place of each piece kind in a position's array of kind boards.
pub struct Pieces;

impl Pieces {
    pub const PAWN: usize = 0;

    pub const BISHOP: usize = 1;

    pub const KNIGHT: usize = 2;

    pub const ROOK: usize = 3;

    pub const QUEEN: usize = 4;

    pub const KING: usize = 5;
}

/// The code points of the two glyphs of one piece kind.
#[derive(Debug, Clone, Copy, PartialEq, Eq, Structural)]
pub struct PieceAsciSymbol {
    pub white: u32,
    pub black: u32,
}

/// The chess glyphs, by piece kind.
pub struct PieceAsci;

impl PieceAsci {
    pub fn pawn() -> (r: PieceAsciSymbol)
        ensures
            r == (PieceAsciSymbol { white: 0x2659, black: 0x265F }),
    {
        PieceAsciSymbol { white: 0x2659, black: 0x265F }
    }

    pub fn bishop() -> (r: PieceAsciSymbol)
        ensures
            r == (PieceAsciSymbol { white: 0x2657, black: 0x265D }),
    {
        PieceAsciSymbol { white: 0x2657, black: 0x265D }
    }

    pub fn knight() -> (r: PieceAsciSymbol)
        ensures
            r == (PieceAsciSymbol { white: 0x2658, black: 0x265E }),
    {
        PieceAsciSymbol { white: 0x2658, black: 0x265E }
    }

    pub fn rook() -> (r: PieceAsciSymbol)
        ensures
            r == (PieceAsciSymbol { white: 0x2656, black: 0x265C }),
    {
        PieceAsciSymbol { white: 0x2656, black: 0x265C }
    }

    pub fn queen() -> (r: PieceAsciSymbol)
        ensures
            r == (PieceAsciSymbol { white: 0x2655, black: 0x265B }),
    {
        PieceAsciSymbol { white: 0x2655, black: 0x265B }
    }

    pub fn king() -> (r: PieceAsciSymbol)
        ensures
            r == (PieceAsciSymbol { white: 0x2654, black: 0x265A }),
    {
        PieceAsciSymbol { white: 0x2654, black: 0x265A }
    }
}

} // verus!
