//! The board state: who stands where, whose turn it is, and what may
//! still be done.
#![allow(non_snake_case)]

use crate::bitboard::{bit_of, lemma_bit_and, lemma_bit_or, lemma_same_bits, lemma_zero_iff_no_bit, BitBoard};
use crate::board_navigator::coord::Coord;
use crate::board_navigator::moves::{CastlingSide, Piece};
use crate::pieces::{Pieces, Side};
use crate::utils::{coord_from_index, spec_coord_from_index};
use vstd::prelude::*;

verus! {

/// 1 for a fact that holds, 0 for one that does not.
pub open spec fn ind(b: bool) -> int {
    if b {
        1
    } else {
        0
    }
}

/// How many of the two side boards hold square `i`.
pub open spec fn side_count(sides: [BitBoard; 2], i: int) -> int {
    ind(sides[0].has(i)) + ind(sides[1].has(i))
}

/// How many of the six kind boards hold square `i`.
pub open spec fn kind_count(pieces: [BitBoard; 6], i: int) -> int {
    ind(pieces[0].has(i)) + ind(pieces[1].has(i)) + ind(pieces[2].has(i)) + ind(pieces[3].has(i))
        + ind(pieces[4].has(i)) + ind(pieces[5].has(i))
}

/// Square `i` is held by at most one side, and by as many kinds as sides:
/// an occupied square has one side and one kind, an empty square neither.
pub open spec fn square_wf(sides: [BitBoard; 2], pieces: [BitBoard; 6], i: int) -> bool {
    side_count(sides, i) <= 1 && kind_count(pieces, i) == side_count(sides, i)
}

/// The eight boards agree with each other on every square.
pub open spec fn boards_wf(sides: [BitBoard; 2], pieces: [BitBoard; 6]) -> bool {
    forall|i: int| 0 <= i < 64 ==> #[trigger] square_wf(sides, pieces, i)
}

/// The side that the side boards give square `i`.
pub open spec fn side_on(sides: [BitBoard; 2], i: int) -> Option<Side> {
    if sides[0].has(i) {
        Some(Side::White)
    } else if sides[1].has(i) {
        Some(Side::Black)
    } else {
        None
    }
}

/// The kind that the kind boards give square `i`.
pub open spec fn kind_on(pieces: [BitBoard; 6], i: int) -> Option<Piece> {
    if pieces[0].has(i) {
        Some(Piece::P)
    } else if pieces[1].has(i) {
        Some(Piece::B)
    } else if pieces[2].has(i) {
        Some(Piece::N)
    } else if pieces[3].has(i) {
        Some(Piece::R)
    } else if pieces[4].has(i) {
        Some(Piece::Q)
    } else if pieces[5].has(i) {
        Some(Piece::K)
    } else {
        None
    }
}

/// What stands on each of the 64 squares: nothing, or a piece of a side.
pub type Board = Seq<Option<(Side, Piece)>>;

/// What the eight boards say stands on square `i`.
pub open spec fn occupant_on(sides: [BitBoard; 2], pieces: [BitBoard; 6], i: int) -> Option<
    (Side, Piece),
> {
    match (side_on(sides, i), kind_on(pieces, i)) {
        (Some(side), Some(kind)) => Some((side, kind)),
        _ => None,
    }
}

/// The bits of the words that a check of eight boards compares, in terms of
/// the bits of the boards.
proof fn lemma_checked_bits(
    w: u64,
    k: u64,
    pawns: u64,
    bishops: u64,
    knights: u64,
    rooks: u64,
    queens: u64,
    kings: u64,
    j: int,
)
    requires
        0 <= j < 64,
    ensures
        bit_of(w & k, j) == (bit_of(w, j) && bit_of(k, j)),
        bit_of(w | k, j) == (bit_of(w, j) || bit_of(k, j)),
        bit_of(pawns & bishops, j) == (bit_of(pawns, j) && bit_of(bishops, j)),
        bit_of((pawns | bishops) & knights, j) == ((bit_of(pawns, j) || bit_of(bishops, j)) && bit_of(knights, j)),
        bit_of((pawns | bishops | knights) & rooks, j) == ((bit_of(pawns, j) || bit_of(bishops, j) || bit_of(knights, j))
            && bit_of(rooks, j)),
        bit_of((pawns | bishops | knights | rooks) & queens, j) == ((bit_of(pawns, j) || bit_of(bishops, j) || bit_of(knights, j)
            || bit_of(rooks, j)) && bit_of(queens, j)),
        bit_of((pawns | bishops | knights | rooks | queens) & kings, j) == ((bit_of(pawns, j) || bit_of(bishops, j) || bit_of(
            knights,
            j,
        ) || bit_of(rooks, j) || bit_of(queens, j)) && bit_of(kings, j)),
        bit_of(pawns | bishops | knights | rooks | queens | kings, j) == (bit_of(pawns, j) || bit_of(bishops, j) || bit_of(knights, j)
            || bit_of(rooks, j) || bit_of(queens, j) || bit_of(kings, j)),
{
    let i = j as u64;
    let a1 = pawns | bishops;
    let a2 = a1 | knights;
    let a3 = a2 | rooks;
    let a4 = a3 | queens;
    lemma_bit_and(w, k, i);
    lemma_bit_or(w, k, i);
    lemma_bit_or(pawns, bishops, i);
    lemma_bit_or(a1, knights, i);
    lemma_bit_or(a2, rooks, i);
    lemma_bit_or(a3, queens, i);
    lemma_bit_or(a4, kings, i);
    lemma_bit_and(pawns, bishops, i);
    lemma_bit_and(a1, knights, i);
    lemma_bit_and(a2, rooks, i);
    lemma_bit_and(a3, queens, i);
    lemma_bit_and(a4, kings, i);
}

/// The four castling rights: `K` and `Q` are white's on the king's and the
/// queen's wing, `k` and `q` black's.
#[derive(Debug, Clone, Copy, PartialEq, Eq, Structural)]
pub struct Castling {
    pub K: bool,
    pub Q: bool,
    pub k: bool,
    pub q: bool,
}

impl Castling {
    /// The rights that are left when `side` has castled: none of its own,
    /// and the other side's as they were.
    pub open spec fn without(self, side: Side) -> Castling {
        match side {
            Side::White => Castling { K: false, Q: false, ..self },
            Side::Black => Castling { k: false, q: false, ..self },
        }
    }

    /// Whether the right to castle in the given way is held.
    pub open spec fn allows(self, variant: CastlingSide) -> bool {
        match variant {
            CastlingSide::WK => self.K,
            CastlingSide::WQ => self.Q,
            CastlingSide::BK => self.k,
            CastlingSide::BQ => self.q,
        }
    }

    /// The rights written out: the letters of those held, in the order
    /// `KQkq`, or `-` where none is held.
    pub open spec fn text(self) -> Seq<char> {
        let letters = (if self.K {
            "K"@
        } else {
            ""@
        }) + (if self.Q {
            "Q"@
        } else {
            ""@
        }) + (if self.k {
            "k"@
        } else {
            ""@
        }) + (if self.q {
            "q"@
        } else {
            ""@
        });
        if !self.K && !self.Q && !self.k && !self.q {
            "-"@
        } else {
            letters
        }
    }

    /// The rights written out, such as `KQkq`, `Kq` or `-`.
    pub fn format(&self) -> (s: String)
        ensures
            s@ == self.text(),
    {
        let mut s = String::new();
        if self.K {
            s.append("K");
        } else {
            s.append("");
        }
        if self.Q {
            s.append("Q");
        } else {
            s.append("");
        }
        if self.k {
            s.append("k");
        } else {
            s.append("");
        }
        if self.q {
            s.append("q");
        } else {
            s.append("");
        }
        if !self.K && !self.Q && !self.k && !self.q {
            proof {
                reveal_strlit("");
                assert(s@ =~= Seq::<char>::empty());
            }
            s.append("-");
        }
        proof {
            assert(s@ =~= self.text());
        }
        s
    }
}

/// A placement of pieces alone: the two side boards and the six kind
/// boards, as yet without a turn or any rights.
#[derive(Debug, Clone, Copy, PartialEq, Eq)]
pub struct StatelessPosition {
    /// The squares of white and of black.
    pub sides: [BitBoard; 2],
    /// The squares of each kind, in the order of [`Pieces`].
    pub pieces: [BitBoard; 6],
}

impl StatelessPosition {
    /// The eight boards agree: no square has two sides or two kinds, and
    /// the squares with a side are the squares with a kind.
    pub open spec fn wf(&self) -> bool {
        boards_wf(self.sides, self.pieces)
    }

    /// Whether the eight boards agree, see [`StatelessPosition::wf`].
    pub fn is_consistent(&self) -> (b: bool)
        ensures
            b == self.wf(),
    {
        let w = self.sides[0].0;
        let k = self.sides[1].0;
        let pawns = self.pieces[0].0;
        let bishops = self.pieces[1].0;
        let knights = self.pieces[2].0;
        let rooks = self.pieces[3].0;
        let queens = self.pieces[4].0;
        let kings = self.pieces[5].0;
        let a1 = pawns | bishops;
        let a2 = a1 | knights;
        let a3 = a2 | rooks;
        let a4 = a3 | queens;
        let a5 = a4 | kings;
        let b = (w & k) == 0 && (pawns & bishops) == 0 && (a1 & knights) == 0 && (a2 & rooks) == 0 && (a3 & queens)
            == 0 && (a4 & kings) == 0 && (w | k) == a5;
        proof {
            lemma_zero_iff_no_bit(w & k);
            lemma_zero_iff_no_bit(pawns & bishops);
            lemma_zero_iff_no_bit(a1 & knights);
            lemma_zero_iff_no_bit(a2 & rooks);
            lemma_zero_iff_no_bit(a3 & queens);
            lemma_zero_iff_no_bit(a4 & kings);
            if b {
                assert forall|j: int| 0 <= j < 64 implies #[trigger] square_wf(
                    self.sides,
                    self.pieces,
                    j,
                ) by {
                    lemma_checked_bits(w, k, pawns, bishops, knights, rooks, queens, kings, j);
                    assert(!bit_of(w & k, j));
                    assert(!bit_of(pawns & bishops, j));
                    assert(!bit_of(a1 & knights, j));
                    assert(!bit_of(a2 & rooks, j));
                    assert(!bit_of(a3 & queens, j));
                    assert(!bit_of(a4 & kings, j));
                    assert(bit_of(w | k, j) == bit_of(a5, j));
                }
            }
            if self.wf() {
                assert forall|j: int| 0 <= j < 64 implies !bit_of(w & k, j) by {
                    lemma_checked_bits(w, k, pawns, bishops, knights, rooks, queens, kings, j);
                    assert(square_wf(self.sides, self.pieces, j));
                }
                assert forall|j: int| 0 <= j < 64 implies !bit_of(pawns & bishops, j) by {
                    lemma_checked_bits(w, k, pawns, bishops, knights, rooks, queens, kings, j);
                    assert(square_wf(self.sides, self.pieces, j));
                }
                assert forall|j: int| 0 <= j < 64 implies !bit_of(a1 & knights, j) by {
                    lemma_checked_bits(w, k, pawns, bishops, knights, rooks, queens, kings, j);
                    assert(square_wf(self.sides, self.pieces, j));
                }
                assert forall|j: int| 0 <= j < 64 implies !bit_of(a2 & rooks, j) by {
                    lemma_checked_bits(w, k, pawns, bishops, knights, rooks, queens, kings, j);
                    assert(square_wf(self.sides, self.pieces, j));
                }
                assert forall|j: int| 0 <= j < 64 implies !bit_of(a3 & queens, j) by {
                    lemma_checked_bits(w, k, pawns, bishops, knights, rooks, queens, kings, j);
                    assert(square_wf(self.sides, self.pieces, j));
                }
                assert forall|j: int| 0 <= j < 64 implies !bit_of(a4 & kings, j) by {
                    lemma_checked_bits(w, k, pawns, bishops, knights, rooks, queens, kings, j);
                    assert(square_wf(self.sides, self.pieces, j));
                }
                assert forall|j: int| 0 <= j < 64 implies bit_of(w | k, j) == bit_of(a5, j) by {
                    lemma_checked_bits(w, k, pawns, bishops, knights, rooks, queens, kings, j);
                    assert(square_wf(self.sides, self.pieces, j));
                }
                lemma_same_bits(w | k, a5);
            }
        }
        b
    }

    /// Puts the eight boards together as they are given.
    pub fn new(
        white_pieces: BitBoard,
        black_pieces: BitBoard,
        pawns: BitBoard,
        bishops: BitBoard,
        knights: BitBoard,
        rooks: BitBoard,
        queens: BitBoard,
        kings: BitBoard,
    ) -> (r: StatelessPosition)
        ensures
            r.sides@ == seq![white_pieces, black_pieces],
            r.pieces@ == seq![pawns, bishops, knights, rooks, queens, kings],
    {
        let r = StatelessPosition {
            sides: [white_pieces, black_pieces],
            pieces: [pawns, bishops, knights, rooks, queens, kings],
        };
        proof {
            assert(r.sides@ =~= seq![white_pieces, black_pieces]);
            assert(r.pieces@ =~= seq![pawns, bishops, knights, rooks, queens, kings]);
        }
        r
    }
}

/// The state of a game between two moves.
#[derive(Debug, Clone, Copy, PartialEq, Eq)]
pub struct Position {
    /// The squares of white and of black.
    pub sides: [BitBoard; 2],
    /// The squares of each kind, in the order of [`Pieces`].
    pub pieces: [BitBoard; 6],
    /// Whose turn it is.
    pub active_colour: Side,
    pub castling: Castling,
    /// The square a pawn has just passed over in a double step, where it
    /// can be taken in passing on the next move only.
    pub en_passant_target: Option<Coord>,
    pub half_move_clock: usize,
    pub full_moves: usize,
}

/// A position as the rules see it: the board square by square, and the
/// rest of the state.
pub struct PositionView {
    pub board: Board,
    pub active_colour: Side,
    pub castling: Castling,
    pub en_passant_target: Option<Coord>,
    pub half_move_clock: usize,
    pub full_moves: usize,
}

impl View for Position {
    type V = PositionView;

    open spec fn view(&self) -> PositionView {
        PositionView {
            board: Seq::new(64, |i: int| occupant_on(self.sides, self.pieces, i)),
            active_colour: self.active_colour,
            castling: self.castling,
            en_passant_target: self.en_passant_target,
            half_move_clock: self.half_move_clock,
            full_moves: self.full_moves,
        }
    }
}

impl Position {
    /// The eight boards agree: no square has two sides or two kinds, and
    /// the squares with a side are the squares with a kind.
    pub open spec fn wf(&self) -> bool {
        boards_wf(self.sides, self.pieces)
    }

    /// Whether a piece stands on square `i`.
    pub open spec fn occupied(&self, i: int) -> bool {
        self.sides[0].has(i) || self.sides[1].has(i)
    }

    /// The side of the piece on square `i`, as the side boards have it.
    pub open spec fn side_at(&self, i: int) -> Option<Side> {
        side_on(self.sides, i)
    }

    /// The kind of the piece on square `i`, as the kind boards have it.
    pub open spec fn kind_at(&self, i: int) -> Option<Piece> {
        kind_on(self.pieces, i)
    }

    /// On a square of a well-formed position the boards and the view say
    /// the same: the square is empty on both, or it holds a piece whose
    /// side is on exactly one side board and whose kind is on exactly one
    /// kind board.
    pub proof fn lemma_square(&self, i: int)
        requires
            self.wf(),
            0 <= i < 64,
        ensures
            self@.board[i] == occupant_on(self.sides, self.pieces, i),
            self@.board[i] is Some <==> self.occupied(i),
            self@.board[i] is Some <==> self.side_at(i) is Some,
            self@.board[i] is Some <==> self.kind_at(i) is Some,
            self@.board[i] matches Some((s, k)) ==> self.side_at(i) == Some(s) && self.kind_at(i)
                == Some(k) && self.sides[s.spec_index()].has(i) && self.pieces[k.spec_index()].has(
                i,
            ) && !self.sides[s.spec_opposite().spec_index()].has(i),
            side_count(self.sides, i) <= 1,
            kind_count(self.pieces, i) == side_count(self.sides, i),
    {
        assert(square_wf(self.sides, self.pieces, i));
    }

    /// The two sides share no square, and the squares of the two sides
    /// together are the squares of the six kinds together.
    pub proof fn lemma_sides_and_kinds(&self)
        requires
            self.wf(),
        ensures
            self.sides[0]@.intersect(self.sides[1]@) == Set::<int>::empty(),
            self.sides[0]@.union(self.sides[1]@) == self.pieces[0]@.union(self.pieces[1]@).union(
                self.pieces[2]@,
            ).union(self.pieces[3]@).union(self.pieces[4]@).union(self.pieces[5]@),
    {
        let both = self.sides[0]@.intersect(self.sides[1]@);
        let sides = self.sides[0]@.union(self.sides[1]@);
        let kinds = self.pieces[0]@.union(self.pieces[1]@).union(self.pieces[2]@).union(
            self.pieces[3]@,
        ).union(self.pieces[4]@).union(self.pieces[5]@);
        assert forall|i: int| !both.contains(i) && sides.contains(i) == kinds.contains(i) by {
            if 0 <= i < 64 {
                assert(square_wf(self.sides, self.pieces, i));
            }
        }
        assert(both =~= Set::<int>::empty());
        assert(sides =~= kinds);
    }

    /// No square belongs to two kinds: at most one of the six kind boards
    /// holds it, and any two of them share no square.
    pub proof fn lemma_one_kind_per_square(&self)
        requires
            self.wf(),
        ensures
            forall|i: int| kind_count(self.pieces, i) <= 1,
            forall|a: int, b: int|
                0 <= a < b < 6 ==> (#[trigger] self.pieces[a])@.intersect(
                    (#[trigger] self.pieces[b])@,
                ) == Set::<int>::empty(),
    {
        assert forall|i: int| kind_count(self.pieces, i) <= 1 by {
            if 0 <= i < 64 {
                assert(square_wf(self.sides, self.pieces, i));
            }
        }
        assert forall|a: int, b: int| 0 <= a < b < 6 implies (#[trigger] self.pieces[a])@.intersect(
            (#[trigger] self.pieces[b])@,
        ) == Set::<int>::empty() by {
            let both = self.pieces[a]@.intersect(self.pieces[b]@);
            assert forall|i: int| !both.contains(i) by {
                assert(kind_count(self.pieces, i) <= 1);
            }
            assert(both =~= Set::<int>::empty());
        }
    }

    /// A well-formed position is told by its view: two such positions with
    /// the same view are the same position.
    pub proof fn lemma_view_determines(&self, other: &Position)
        requires
            self.wf(),
            other.wf(),
            self@ == other@,
        ensures
            *self == *other,
    {
        assert forall|i: int| 0 <= i < 64 implies occupant_on(self.sides, self.pieces, i)
            == occupant_on(other.sides, other.pieces, i) by {
            assert(self@.board[i] == other@.board[i]);
        }
        assert forall|s: int| 0 <= s < 2 implies self.sides[s] == other.sides[s] by {
            assert forall|j: int| 0 <= j < 64 implies bit_of(self.sides[s].0, j) == bit_of(
                other.sides[s].0,
                j,
            ) by {
                self.lemma_square(j);
                other.lemma_square(j);
                assert(occupant_on(self.sides, self.pieces, j) == occupant_on(
                    other.sides,
                    other.pieces,
                    j,
                ));
            }
            lemma_same_bits(self.sides[s].0, other.sides[s].0);
        }
        assert forall|k: int| 0 <= k < 6 implies self.pieces[k] == other.pieces[k] by {
            assert forall|j: int| 0 <= j < 64 implies bit_of(self.pieces[k].0, j) == bit_of(
                other.pieces[k].0,
                j,
            ) by {
                self.lemma_square(j);
                other.lemma_square(j);
                assert(occupant_on(self.sides, self.pieces, j) == occupant_on(
                    other.sides,
                    other.pieces,
                    j,
                ));
            }
            lemma_same_bits(self.pieces[k].0, other.pieces[k].0);
        }
        assert(self.sides =~= other.sides);
        assert(self.pieces =~= other.pieces);
    }

    /// The boards of a given side and kind, met.
    pub open spec fn spec_occupancy_of(&self, side: Side, kind: Piece) -> Set<int> {
        self.sides[side.spec_index()]@.intersect(self.pieces[kind.spec_index()]@)
    }

    /// Makes a position of a placement and the rest of the state.
    pub fn new(
        stateless_position: StatelessPosition,
        active_colour: Side,
        castling: Castling,
        en_passant_target: Option<Coord>,
        half_move_clock: usize,
        full_moves: usize,
    ) -> (p: Position)
        requires
            stateless_position.wf(),
        ensures
            p.wf(),
            p.sides == stateless_position.sides,
            p.pieces == stateless_position.pieces,
            p.active_colour == active_colour,
            p.castling == castling,
            p.en_passant_target == en_passant_target,
            p.half_move_clock == half_move_clock,
            p.full_moves == full_moves,
    {
        Position {
            sides: stateless_position.sides,
            pieces: stateless_position.pieces,
            active_colour,
            castling,
            en_passant_target,
            half_move_clock,
            full_moves,
        }
    }

    fn get_white_pieces(&self) -> (r: BitBoard)
        ensures
            r == self.sides[0],
    {
        self.sides[0]
    }

    fn get_black_pieces(&self) -> (r: BitBoard)
        ensures
            r == self.sides[1],
    {
        self.sides[1]
    }

    fn get_pawns(&self) -> (r: BitBoard)
        ensures
            r == self.pieces[0],
    {
        self.pieces[Pieces::PAWN]
    }

    fn get_bishops(&self) -> (r: BitBoard)
        ensures
            r == self.pieces[1],
    {
        self.pieces[Pieces::BISHOP]
    }

    fn get_knights(&self) -> (r: BitBoard)
        ensures
            r == self.pieces[2],
    {
        self.pieces[Pieces::KNIGHT]
    }

    fn get_rooks(&self) -> (r: BitBoard)
        ensures
            r == self.pieces[3],
    {
        self.pieces[Pieces::ROOK]
    }

    fn get_queens(&self) -> (r: BitBoard)
        ensures
            r == self.pieces[4],
    {
        self.pieces[Pieces::QUEEN]
    }

    fn get_kings(&self) -> (r: BitBoard)
        ensures
            r == self.pieces[5],
    {
        self.pieces[Pieces::KING]
    }

    /// Whether a piece stands on the square.
    pub fn has_piece(&self, index: i32) -> (b: bool)
        requires
            0 <= index < 64,
        ensures
            b == self.occupied(index as int),
            self.wf() ==> b == (self@.board[index as int] is Some),
    {
        proof {
            lemma_bit_or(self.sides[0].0, self.sides[1].0, index as u64);
            if self.wf() {
                assert(square_wf(self.sides, self.pieces, index as int));
            }
        }
        (self.get_white_pieces() | self.get_black_pieces()).test(index as u8)
    }

    /// Whether a white piece stands on the square.
    pub fn is_white(&self, index: i32) -> (b: bool)
        requires
            0 <= index < 64,
        ensures
            b == self.sides[0].has(index as int),
    {
        self.get_white_pieces().test(index as u8)
    }

    /// Whether a black piece stands on the square.
    pub fn is_black(&self, index: i32) -> (b: bool)
        requires
            0 <= index < 64,
        ensures
            b == self.sides[1].has(index as int),
    {
        self.get_black_pieces().test(index as u8)
    }

    /// Whether a pawn stands on the square.
    pub fn is_pawn(&self, index: i32) -> (b: bool)
        requires
            0 <= index < 64,
        ensures
            b == self.pieces[0].has(index as int),
    {
        self.get_pawns().test(index as u8)
    }

    /// Whether a bishop stands on the square.
    pub fn is_bishop(&self, index: i32) -> (b: bool)
        requires
            0 <= index < 64,
        ensures
            b == self.pieces[1].has(index as int),
    {
        self.get_bishops().test(index as u8)
    }

    /// Whether a knight stands on the square.
    pub fn is_knight(&self, index: i32) -> (b: bool)
        requires
            0 <= index < 64,
        ensures
            b == self.pieces[2].has(index as int),
    {
        self.get_knights().test(index as u8)
    }

    /// Whether a rook stands on the square.
    pub fn is_rook(&self, index: i32) -> (b: bool)
        requires
            0 <= index < 64,
        ensures
            b == self.pieces[3].has(index as int),
    {
        self.get_rooks().test(index as u8)
    }

    /// Whether a queen stands on the square.
    pub fn is_queen(&self, index: i32) -> (b: bool)
        requires
            0 <= index < 64,
        ensures
            b == self.pieces[4].has(index as int),
    {
        self.get_queens().test(index as u8)
    }

    /// Whether a king stands on the square.
    pub fn is_king(&self, index: i32) -> (b: bool)
        requires
            0 <= index < 64,
        ensures
            b == self.pieces[5].has(index as int),
    {
        self.get_kings().test(index as u8)
    }

    /// Whether the square of this index is the one that can be taken on in
    /// passing.
    pub fn is_en_passant_target(&self, index: i32) -> (b: bool)
        ensures
            b == (self.en_passant_target == Some(spec_coord_from_index(index as int))),
    {
        match &self.en_passant_target {
            Some(en_passant_coord) => {
                let coord_to_check = coord_from_index(index);
                coord_to_check.0 == en_passant_coord.0 && coord_to_check.1 == en_passant_coord.1
            },
            None => false,
        }
    }

    /// The squares of one kind of one side.
    pub fn occupancy_of(&self, side: Side, kind: Piece) -> (r: BitBoard)
        ensures
            r@ == self.spec_occupancy_of(side, kind),
    {
        self.sides[side.index()] & self.pieces[kind.index()]
    }

    pub fn get_white_pawns(&self) -> (r: BitBoard)
        ensures
            r@ == self.spec_occupancy_of(Side::White, Piece::P),
    {
        self.get_white_pieces() & self.get_pawns()
    }

    pub fn get_white_bishops(&self) -> (r: BitBoard)
        ensures
            r@ == self.spec_occupancy_of(Side::White, Piece::B),
    {
        self.get_white_pieces() & self.get_bishops()
    }

    pub fn get_white_knights(&self) -> (r: BitBoard)
        ensures
            r@ == self.spec_occupancy_of(Side::White, Piece::N),
    {
        self.get_white_pieces() & self.get_knights()
    }

    pub fn get_white_rooks(&self) -> (r: BitBoard)
        ensures
            r@ == self.spec_occupancy_of(Side::White, Piece::R),
    {
        self.get_white_pieces() & self.get_rooks()
    }

    pub fn get_white_queens(&self) -> (r: BitBoard)
        ensures
            r@ == self.spec_occupancy_of(Side::White, Piece::Q),
    {
        self.get_white_pieces() & self.get_queens()
    }

    pub fn get_white_kings(&self) -> (r: BitBoard)
        ensures
            r@ == self.spec_occupancy_of(Side::White, Piece::K),
    {
        self.get_white_pieces() & self.get_kings()
    }

    pub fn get_black_pawns(&self) -> (r: BitBoard)
        ensures
            r@ == self.spec_occupancy_of(Side::Black, Piece::P),
    {
        self.get_black_pieces() & self.get_pawns()
    }

    pub fn get_black_bishops(&self) -> (r: BitBoard)
        ensures
            r@ == self.spec_occupancy_of(Side::Black, Piece::B),
    {
        self.get_black_pieces() & self.get_bishops()
    }

    pub fn get_black_knights(&self) -> (r: BitBoard)
        ensures
            r@ == self.spec_occupancy_of(Side::Black, Piece::N),
    {
        self.get_black_pieces() & self.get_knights()
    }

    pub fn get_black_rooks(&self) -> (r: BitBoard)
        ensures
            r@ == self.spec_occupancy_of(Side::Black, Piece::R),
    {
        self.get_black_pieces() & self.get_rooks()
    }

    pub fn get_black_queens(&self) -> (r: BitBoard)
        ensures
            r@ == self.spec_occupancy_of(Side::Black, Piece::Q),
    {
        self.get_black_pieces() & self.get_queens()
    }

    pub fn get_black_kings(&self) -> (r: BitBoard)
        ensures
            r@ == self.spec_occupancy_of(Side::Black, Piece::K),
    {
        self.get_black_pieces() & self.get_kings()
    }

    /// The side of the piece on the square, if one stands there.
    pub fn get_side(&self, index: i32) -> (r: Option<Side>)
        requires
            0 <= index < 64,
        ensures
            r == side_on(self.sides, index as int),
    {
        if self.has_piece(index) {
            if self.is_white(index) {
                return Some(Side::White);
            } else {
                return Some(Side::Black);
            }
        }
        None
    }

    /// The kind of the piece on the square, if one stands there.
    pub fn get_piece(&self, index: i32) -> (r: Option<Piece>)
        requires
            0 <= index < 64,
        ensures
            r == kind_on(self.pieces, index as int),
    {
        if self.is_pawn(index) {
            return Some(Piece::P);
        } else if self.is_bishop(index) {
            return Some(Piece::B);
        } else if self.is_knight(index) {
            return Some(Piece::N);
        } else if self.is_rook(index) {
            return Some(Piece::R);
        } else if self.is_queen(index) {
            return Some(Piece::Q);
        } else if self.is_king(index) {
            return Some(Piece::K);
        }
        None
    }

    /// The piece on the square with its side, if one stands there.
    pub fn occupant(&self, index: i32) -> (r: Option<(Side, Piece)>)
        requires
            0 <= index < 64,
        ensures
            r == occupant_on(self.sides, self.pieces, index as int),
            r == self@.board[index as int],
    {
        match (self.get_side(index), self.get_piece(index)) {
            (Some(side), Some(kind)) => Some((side, kind)),
            _ => None,
        }
    }
}


/// The board after the rook of a castling move has gone to its new square:
/// whatever stands on the rook's corner goes there, and an empty corner
/// changes nothing.
pub open spec fn castled(board: Board, variant: Option<CastlingSide>) -> Board {
    match variant {
        Some(c) => {
            let rook_from = c.spec_rook_from().index();
            let rook_to = c.spec_rook_to().index();
            match board[rook_from] {
                Some(piece) => board.update(rook_to, Some(piece)).update(rook_from, None),
                None => board,
            }
        },
        None => board,
    }
}

/// The castling rights after a move: a castling move ends both rights of
/// the side that castles, any other move leaves the rights as they were.
pub open spec fn rights_after(rights: Castling, variant: Option<CastlingSide>) -> Castling {
    match variant {
        Some(c) => rights.without(c.spec_side()),
        None => rights,
    }
}

/// The square between the two ends of a pawn's double step.
pub open spec fn passed_square(from: Coord, to: Coord) -> Coord {
    Coord(
        from.0,
        if from.1 < to.1 {
            (from.1 + 1) as u8
        } else {
            (from.1 - 1) as u8
        },
    )
}

/// The en-passant target after a piece of the given kind has moved: the
/// square a pawn passed over in a double step, and none after any other
/// move.
pub open spec fn target_after(kind: Piece, from: Coord, to: Coord) -> Option<Coord> {
    if kind == Piece::P && from.spec_rank_diff(to) == 2 {
        Some(passed_square(from, to))
    } else {
        None
    }
}

/// The square of the pawn that a capture in passing takes: on the file of
/// the destination and the rank of the origin.
pub open spec fn passed_pawn_square(from: Coord, to: Coord) -> Coord {
    Coord(to.0, from.1)
}

/// The board with the piece on `from` set down on `to` as a piece of kind
/// `placed`, the rook of a castling move brought over, and `from` left
/// empty, in this order.
pub open spec fn board_after(
    board: Board,
    from: Coord,
    to: Coord,
    side: Side,
    placed: Piece,
    variant: Option<CastlingSide>,
) -> Board {
    castled(board.update(to.index(), Some((side, placed))), variant).update(from.index(), None)
}

impl PositionView {
    /// The piece that stands on a square of the board.
    pub open spec fn at(self, c: Coord) -> Option<(Side, Piece)> {
        self.board[c.index()]
    }

    /// The position after the piece on `from` has gone to `to`, with the
    /// rook brought over where `variant` names a castling move. Whatever
    /// stood on `to` is taken. The side to move and the two counters stay
    /// as they are.
    pub open spec fn moved(self, from: Coord, to: Coord, variant: Option<CastlingSide>) -> PositionView
        recommends
            from.is_valid(),
            to.is_valid(),
            self.at(from) is Some,
    {
        let (side, kind) = self.at(from).unwrap();
        PositionView {
            board: board_after(self.board, from, to, side, kind, variant),
            castling: rights_after(self.castling, variant),
            en_passant_target: target_after(kind, from, to),
            ..self
        }
    }

    /// Whether a move of the piece on `from` to `to`, marked as a capture
    /// in passing, takes a pawn: the mover is a pawn, and beside it, on the
    /// file it goes to, stands a pawn of the other side.
    pub open spec fn takes_in_passing(self, from: Coord, to: Coord, en_passant: bool) -> bool {
        &&& en_passant
        &&& self.at(from) matches Some((side, kind))
        &&& kind == Piece::P
        &&& self.at(passed_pawn_square(from, to)) == Some((side.spec_opposite(), Piece::P))
    }

    /// The kind of piece that a move sets down: the kind a pawn is promoted
    /// to, or else the kind that moves.
    pub open spec fn placed_kind(self, from: Coord, promotion: Option<Piece>) -> Piece
        recommends
            self.at(from) is Some,
    {
        let (side, kind) = self.at(from).unwrap();
        match promotion {
            Some(p) if kind == Piece::P => p,
            _ => kind,
        }
    }

    /// The position after a move has been made in full: a pawn taken in
    /// passing is lifted from its square, the mover is set down on the
    /// destination (a promoted pawn as its new kind), a castling rook is
    /// brought over, and the origin is left empty.
    pub open spec fn applied(
        self,
        from: Coord,
        to: Coord,
        en_passant: bool,
        variant: Option<CastlingSide>,
        promotion: Option<Piece>,
    ) -> PositionView
        recommends
            from.is_valid(),
            to.is_valid(),
            self.at(from) is Some,
    {
        let (side, kind) = self.at(from).unwrap();
        let lifted = if self.takes_in_passing(from, to, en_passant) {
            self.board.update(passed_pawn_square(from, to).index(), None)
        } else {
            self.board
        };
        PositionView {
            board: board_after(lifted, from, to, side, self.placed_kind(from, promotion), variant),
            castling: rights_after(self.castling, variant),
            en_passant_target: target_after(kind, from, to),
            ..self
        }
    }
}

/// What is said of a move from an empty square.
pub open spec fn no_piece_message(from: Coord) -> Seq<char> {
    "No Piece found at "@ + from.text()
}

impl Position {
    /// The two positions differ at most in their boards.
    pub open spec fn same_state(&self, other: &Position) -> bool {
        &&& self.active_colour == other.active_colour
        &&& self.castling == other.castling
        &&& self.en_passant_target == other.en_passant_target
        &&& self.half_move_clock == other.half_move_clock
        &&& self.full_moves == other.full_moves
    }

    /// Adds or removes one square on the board of one side.
    fn mark_side(&mut self, side: Side, index: u8, present: bool)
        requires
            index < 64,
        ensures
            final(self).same_state(old(self)),
            final(self).pieces == old(self).pieces,
            forall|j: int|
                #![trigger final(self).sides[0].has(j)]
                final(self).sides[0].has(j) == (if side == Side::White && j == index {
                    present
                } else {
                    old(self).sides[0].has(j)
                }),
            forall|j: int|
                #![trigger final(self).sides[1].has(j)]
                final(self).sides[1].has(j) == (if side == Side::Black && j == index {
                    present
                } else {
                    old(self).sides[1].has(j)
                }),
    {
        match side {
            Side::White => {
                if present {
                    self.sides[0].set_index(index);
                } else {
                    self.sides[0].unset_index(index);
                }
            },
            Side::Black => {
                if present {
                    self.sides[1].set_index(index);
                } else {
                    self.sides[1].unset_index(index);
                }
            },
        }
    }

    /// Adds or removes one square on the board of one kind.
    fn mark_kind(&mut self, kind: Piece, index: u8, present: bool)
        requires
            index < 64,
        ensures
            final(self).same_state(old(self)),
            final(self).sides == old(self).sides,
            forall|k: int, j: int|
                #![trigger final(self).pieces[k].has(j)]
                0 <= k < 6 ==> final(self).pieces[k].has(j) == (if k == kind.spec_index() && j
                    == index {
                    present
                } else {
                    old(self).pieces[k].has(j)
                }),
    {
        let k = kind.index();
        if present {
            self.pieces[k].set_index(index);
        } else {
            self.pieces[k].unset_index(index);
        }
    }

    /// Takes the piece off the square, if one stands there.
    pub fn remove_piece(&mut self, index: i32)
        requires
            old(self).wf(),
            0 <= index < 64,
        ensures
            final(self).wf(),
            final(self)@ == (PositionView {
                board: old(self)@.board.update(index as int, None),
                ..old(self)@
            }),
    {
        if self.has_piece(index) {
            proof {
                assert(square_wf(self.sides, self.pieces, index as int));
            }
            let side = if self.is_white(index) {
                Side::White
            } else {
                Side::Black
            };
            self.mark_side(side, index as u8, false);
            match self.get_piece(index) {
                Some(kind) => {
                    self.mark_kind(kind, index as u8, false);
                },
                None => {},
            }
        }
        proof {
            assert forall|j: int|
                #![trigger square_wf(self.sides, self.pieces, j)]
                #![trigger occupant_on(self.sides, self.pieces, j)]
                0 <= j < 64 implies square_wf(self.sides, self.pieces, j) && occupant_on(
                self.sides,
                self.pieces,
                j,
            ) == (if j == index {
                None
            } else {
                occupant_on(old(self).sides, old(self).pieces, j)
            }) by {
                assert(square_wf(old(self).sides, old(self).pieces, j));
            }
            assert(self@.board =~= old(self)@.board.update(index as int, None));
        }
    }

    /// Sets a piece on the square, in place of what stands there.
    pub fn place_piece(&mut self, index: i32, side: Side, piece: Piece)
        requires
            old(self).wf(),
            0 <= index < 64,
        ensures
            final(self).wf(),
            final(self)@ == (PositionView {
                board: old(self)@.board.update(index as int, Some((side, piece))),
                ..old(self)@
            }),
    {
        if self.has_piece(index) {
            self.remove_piece(index);
        }
        let ghost cleared = *self;
        proof {
            assert(square_wf(old(self).sides, old(self).pieces, index as int));
            assert(cleared@.board[index as int] is None);
            assert forall|j: int| 0 <= j < 64 implies #[trigger] occupant_on(
                cleared.sides,
                cleared.pieces,
                j,
            ) == (if j == index {
                None
            } else {
                occupant_on(old(self).sides, old(self).pieces, j)
            }) by {
                assert(cleared@.board[j] == occupant_on(cleared.sides, cleared.pieces, j));
                assert(old(self)@.board[j] == occupant_on(old(self).sides, old(self).pieces, j));
            }
        }
        self.mark_side(side, index as u8, true);
        self.mark_kind(piece, index as u8, true);
        proof {
            assert forall|j: int|
                #![trigger square_wf(self.sides, self.pieces, j)]
                #![trigger occupant_on(self.sides, self.pieces, j)]
                0 <= j < 64 implies square_wf(self.sides, self.pieces, j) && occupant_on(
                self.sides,
                self.pieces,
                j,
            ) == (if j == index {
                Some((side, piece))
            } else {
                occupant_on(old(self).sides, old(self).pieces, j)
            }) by {
                assert(square_wf(cleared.sides, cleared.pieces, j));
                assert(occupant_on(cleared.sides, cleared.pieces, j) == (if j == index {
                    None
                } else {
                    occupant_on(old(self).sides, old(self).pieces, j)
                }));
            }
            assert(self@.board =~= old(self)@.board.update(index as int, Some((side, piece))));
        }
    }

    /// Brings the rook of a castling move over and ends the rights of the
    /// side that castles.
    fn castle(&mut self, castling: &Option<CastlingSide>)
        requires
            old(self).wf(),
        ensures
            final(self).wf(),
            final(self)@ == (PositionView {
                board: castled(old(self)@.board, *castling),
                castling: rights_after(old(self).castling, *castling),
                ..old(self)@
            }),
    {
        if let Some(castling_side) = castling {
            let rook_from = castling_side.rook_from().to_index();
            let rook_to = castling_side.rook_to().to_index();
            match self.occupant(rook_from) {
                Some((side, piece)) => {
                    self.place_piece(rook_to, side, piece);
                    self.remove_piece(rook_from);
                },
                None => {},
            }
            match castling_side.side() {
                Side::White => {
                    self.castling.K = false;
                    self.castling.Q = false;
                },
                Side::Black => {
                    self.castling.k = false;
                    self.castling.q = false;
                },
            }
        }
    }

    /// Sets the mover down, brings a castling rook over, empties the
    /// origin and notes the en-passant target.
    pub(crate) fn carry_out(
        &mut self,
        from: &Coord,
        to: &Coord,
        side: Side,
        kind: Piece,
        placed: Piece,
        castling: &Option<CastlingSide>,
    )
        requires
            old(self).wf(),
            from.is_valid(),
            to.is_valid(),
        ensures
            final(self).wf(),
            final(self)@ == (PositionView {
                board: board_after(old(self)@.board, *from, *to, side, placed, *castling),
                castling: rights_after(old(self).castling, *castling),
                en_passant_target: target_after(kind, *from, *to),
                ..old(self)@
            }),
    {
        let mut target: Option<Coord> = None;
        if kind == Piece::P {
            let diff = from.rank_diff(to);
            if diff == 2 {
                let en_passant_target_rank = if from.1 < to.1 {
                    from.1 + 1
                } else {
                    from.1 - 1
                };
                target = Some(Coord(from.0, en_passant_target_rank));
            }
        }
        self.en_passant_target = target;
        self.place_piece(to.to_index(), side, placed);
        self.castle(castling);
        self.remove_piece(from.to_index());
    }

    /// Moves the piece on `from` to `to`, taking what stands there; with a
    /// castling variant the rook is brought over as well.
    ///
    /// Gives the index of `to`. Where no piece stands on `from`, the move
    /// fails with a message that names the square, and the position stays
    /// as it was.
    pub fn make_move(&mut self, from: &Coord, to: &Coord, castling: &Option<CastlingSide>) -> (r:
        Result<i32, String>)
        requires
            old(self).wf(),
            from.is_valid(),
            to.is_valid(),
        ensures
            final(self).wf(),
            match r {
                Ok(index) => {
                    &&& old(self)@.at(*from) is Some
                    &&& index == to.index()
                    &&& final(self)@ == old(self)@.moved(*from, *to, *castling)
                },
                Err(message) => {
                    &&& old(self)@.at(*from) is None
                    &&& message@ == no_piece_message(*from)
                    &&& *final(self) == *old(self)
                },
            },
    {
        let from_index = from.to_index();
        match self.occupant(from_index) {
            Some((side, piece)) => {
                self.carry_out(from, to, side, piece, piece, castling);
                Ok(to.to_index())
            },
            None => {
                let mut message = String::from_str("No Piece found at ");
                message.append(from.format().as_str());
                Err(message)
            },
        }
    }
}

} // verus!
