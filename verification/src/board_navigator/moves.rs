//! Piece kinds, castling variants and candidate moves.

use crate::board_navigator::coord::Coord;
use crate::pieces::{Pieces, Side};
use vstd::prelude::*;

verus! {

/// A kind of piece.
#[derive(Debug, Clone, Copy, PartialEq, Eq, Structural)]
pub enum Piece {
    P,
    N,
    B,
    R,
    Q,
    K,
}

impl Piece {
    /// The place of this kind in a position's array of kind boards.
    pub open spec fn spec_index(self) -> int {
        match self {
            Piece::P => 0,
            Piece::B => 1,
            Piece::N => 2,
            Piece::R => 3,
            Piece::Q => 4,
            Piece::K => 5,
        }
    }

    /// The English name of the kind.
    pub open spec fn name(self) -> Seq<char> {
        match self {
            Piece::P => "Pawn"@,
            Piece::N => "Knight"@,
            Piece::B => "Bishop"@,
            Piece::R => "Rook"@,
            Piece::Q => "Queen"@,
            Piece::K => "King"@,
        }
    }

    /// The place of this kind in a position's array of kind boards.
    pub fn index(self) -> (r: usize)
        ensures
            r == self.spec_index(),
            r < 6,
    {
        match self {
            Piece::P => Pieces::PAWN,
            Piece::B => Pieces::BISHOP,
            Piece::N => Pieces::KNIGHT,
            Piece::R => Pieces::ROOK,
            Piece::Q => Pieces::QUEEN,
            Piece::K => Pieces::KING,
        }
    }

    /// The English name of the kind.
    pub fn format(&self) -> (s: String)
        ensures
            s@ == self.name(),
    {
        match self {
            Piece::P => String::from_str("Pawn"),
            Piece::N => String::from_str("Knight"),
            Piece::B => String::from_str("Bishop"),
            Piece::R => String::from_str("Rook"),
            Piece::Q => String::from_str("Queen"),
            Piece::K => String::from_str("King"),
        }
    }
}

/// One of the four castling moves: a side, and the wing the king goes to.
#[derive(Debug, Clone, Copy, PartialEq, Eq, Structural)]
pub enum CastlingSide {
    WK,
    WQ,
    BK,
    BQ,
}

impl CastlingSide {
    /// The side that castles.
    pub open spec fn spec_side(self) -> Side {
        match self {
            CastlingSide::WK | CastlingSide::WQ => Side::White,
            CastlingSide::BK | CastlingSide::BQ => Side::Black,
        }
    }

    /// The square the king stands on before castling.
    pub open spec fn spec_king_from(self) -> Coord {
        match self {
            CastlingSide::WK | CastlingSide::WQ => Coord('e', 1),
            CastlingSide::BK | CastlingSide::BQ => Coord('e', 8),
        }
    }

    /// The square the king castles to, two files from its own.
    pub open spec fn spec_king_to(self) -> Coord {
        match self {
            CastlingSide::WK => Coord('g', 1),
            CastlingSide::WQ => Coord('c', 1),
            CastlingSide::BK => Coord('g', 8),
            CastlingSide::BQ => Coord('c', 8),
        }
    }

    /// The corner the rook comes from.
    pub open spec fn spec_rook_from(self) -> Coord {
        match self {
            CastlingSide::WK => Coord('h', 1),
            CastlingSide::WQ => Coord('a', 1),
            CastlingSide::BK => Coord('h', 8),
            CastlingSide::BQ => Coord('a', 8),
        }
    }

    /// The square the rook lands on, next to the king on its far side.
    pub open spec fn spec_rook_to(self) -> Coord {
        match self {
            CastlingSide::WK => Coord('f', 1),
            CastlingSide::WQ => Coord('d', 1),
            CastlingSide::BK => Coord('f', 8),
            CastlingSide::BQ => Coord('d', 8),
        }
    }

    /// How the variant is written down: `0-0` on the king's wing, `0-0-0`
    /// on the queen's.
    pub open spec fn notation(self) -> Seq<char> {
        match self {
            CastlingSide::WK | CastlingSide::BK => "0-0"@,
            CastlingSide::WQ | CastlingSide::BQ => "0-0-0"@,
        }
    }

    /// The side that castles.
    pub fn side(self) -> (r: Side)
        ensures
            r == self.spec_side(),
    {
        match self {
            CastlingSide::WK | CastlingSide::WQ => Side::White,
            CastlingSide::BK | CastlingSide::BQ => Side::Black,
        }
    }

    /// The square the king castles to.
    pub fn king_to(self) -> (r: Coord)
        ensures
            r == self.spec_king_to(),
    {
        match self {
            CastlingSide::WK => Coord('g', 1),
            CastlingSide::WQ => Coord('c', 1),
            CastlingSide::BK => Coord('g', 8),
            CastlingSide::BQ => Coord('c', 8),
        }
    }

    /// The corner the rook comes from.
    pub fn rook_from(self) -> (r: Coord)
        ensures
            r == self.spec_rook_from(),
            r.is_valid(),
    {
        match self {
            CastlingSide::WK => Coord('h', 1),
            CastlingSide::WQ => Coord('a', 1),
            CastlingSide::BK => Coord('h', 8),
            CastlingSide::BQ => Coord('a', 8),
        }
    }

    /// The square the rook lands on.
    pub fn rook_to(self) -> (r: Coord)
        ensures
            r == self.spec_rook_to(),
            r.is_valid(),
    {
        match self {
            CastlingSide::WK => Coord('f', 1),
            CastlingSide::WQ => Coord('d', 1),
            CastlingSide::BK => Coord('f', 8),
            CastlingSide::BQ => Coord('d', 8),
        }
    }
}

/// A candidate move: where a piece goes from and to, and what kind of move
/// it is.
#[derive(Debug, Clone, Copy, PartialEq, Eq, Structural)]
pub struct Move {
    pub from: Coord,
    pub to: Coord,
    /// The move takes a piece.
    pub capture: bool,
    /// The move takes a pawn in passing: the pawn taken stands beside the
    /// mover, not on the destination.
    pub en_passant: bool,
    /// The castling variant, where the move castles.
    pub castling: Option<CastlingSide>,
    /// The kind the pawn turns into, where the move promotes.
    pub promotion: Option<Piece>,
}

impl Move {
    /// A move that neither castles, promotes nor takes in passing.
    pub open spec fn plain(from: Coord, to: Coord, capture: bool) -> Move {
        Move { from, to, capture, en_passant: false, castling: None, promotion: None }
    }

    /// The move written out: origin, `X` for a capture or `->` otherwise,
    /// destination, `= ` and the new kind for a promotion, and the castling
    /// notation, with one space between each two of the five parts.
    pub open spec fn text(self) -> Seq<char> {
        self.from.text() + " "@ + (if self.capture {
            "X"@
        } else {
            "->"@
        }) + " "@ + self.to.text() + " "@ + (match self.promotion {
            Some(p) => "= "@ + p.name(),
            None => ""@,
        }) + " "@ + (match self.castling {
            Some(c) => c.notation(),
            None => ""@,
        })
    }

    /// The move written out.
    pub fn format(&self) -> (s: String)
        ensures
            s@ == self.text(),
    {
        let mut s = self.from.format();
        s.append(" ");
        if self.capture {
            s.append("X");
        } else {
            s.append("->");
        }
        s.append(" ");
        s.append(self.to.format().as_str());
        s.append(" ");
        match self.promotion {
            Some(p) => {
                s.append("= ");
                s.append(p.format().as_str());
            },
            None => {
                s.append("");
            },
        }
        s.append(" ");
        match self.castling {
            Some(CastlingSide::WK) | Some(CastlingSide::BK) => {
                s.append("0-0");
            },
            Some(CastlingSide::WQ) | Some(CastlingSide::BQ) => {
                s.append("0-0-0");
            },
            None => {
                s.append("");
            },
        }
        proof {
            assert(s@ =~= self.text());
        }
        s
    }
}

} // verus!
