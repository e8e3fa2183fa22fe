//! Whether a square is attacked, found by looking outward from the square
//! along the lines on which each kind of piece attacks.

use crate::board_navigator::coord::Coord;
use crate::board_navigator::moves::Piece;
use crate::pieces::Side;
use crate::position::{Board, Position};
use vstd::prelude::*;

verus! {

/// The first piece met on the way from `from` in steps of `dx` files and
/// `dy` ranks, beginning with step `k`; none where the way leaves the board
/// first. No way is followed for more than seven steps: that crosses the
/// board.
pub open spec fn first_on_ray(board: Board, from: Coord, dx: int, dy: int, k: int) -> Option<
    (Side, Piece),
>
    decreases 8 - k,
{
    if k < 1 || k > 7 {
        None
    } else {
        match from.offset(k * dx, k * dy) {
            None => None,
            Some(c) => match board[c.index()] {
                Some(piece) => Some(piece),
                None => first_on_ray(board, from, dx, dy, k + 1),
            },
        }
    }
}

/// A piece of the given side and of one of the given kinds.
pub open spec fn is_one_of(piece: Option<(Side, Piece)>, side: Side, kinds: Seq<Piece>) -> bool {
    piece matches Some((s, k)) && s == side && kinds.contains(k)
}

/// The first piece on the line from `square` is an opponent of `mover` and
/// of a kind that attacks along the line.
pub open spec fn attacked_along(
    board: Board,
    square: Coord,
    mover: Side,
    dx: int,
    dy: int,
    kinds: Seq<Piece>,
) -> bool {
    is_one_of(first_on_ray(board, square, dx, dy, 1), mover.spec_opposite(), kinds)
}

/// On the square one step from `square` stands an opponent of `mover` of
/// one of the given kinds.
pub open spec fn attacked_from(
    board: Board,
    square: Coord,
    mover: Side,
    dx: int,
    dy: int,
    kinds: Seq<Piece>,
) -> bool {
    square.offset(dx, dy) matches Some(c) && is_one_of(
        board[c.index()],
        mover.spec_opposite(),
        kinds,
    )
}

/// Whether a piece of the side that opposes `mover` attacks `square`:
///
/// - a bishop or queen that is the first piece on one of the four diagonals;
/// - a rook or queen that is the first piece on the rank or the file, in
///   either direction;
/// - a king on one of the eight squares next to it;
/// - a pawn on one of the two squares diagonally ahead of it, as `mover`
///   looks at the board.
///
/// Knights are not looked for.
#[verifier::opaque]
pub open spec fn attacked(board: Board, square: Coord, mover: Side) -> bool {
    let diagonal = seq![Piece::B, Piece::Q];
    let straight = seq![Piece::R, Piece::Q];
    let king = seq![Piece::K];
    let pawn = seq![Piece::P];
    let ahead = mover.spec_forward();
    ||| attacked_along(board, square, mover, -1, 1, diagonal)
    ||| attacked_along(board, square, mover, 1, 1, diagonal)
    ||| attacked_along(board, square, mover, 1, -1, diagonal)
    ||| attacked_along(board, square, mover, -1, -1, diagonal)
    ||| attacked_along(board, square, mover, 0, 1, straight)
    ||| attacked_along(board, square, mover, 1, 0, straight)
    ||| attacked_along(board, square, mover, 0, -1, straight)
    ||| attacked_along(board, square, mover, -1, 0, straight)
    ||| attacked_from(board, square, mover, -1, 1, king)
    ||| attacked_from(board, square, mover, 1, 1, king)
    ||| attacked_from(board, square, mover, 1, -1, king)
    ||| attacked_from(board, square, mover, -1, -1, king)
    ||| attacked_from(board, square, mover, 0, 1, king)
    ||| attacked_from(board, square, mover, 1, 0, king)
    ||| attacked_from(board, square, mover, 0, -1, king)
    ||| attacked_from(board, square, mover, -1, 0, king)
    ||| attacked_from(board, square, mover, -1, ahead, pawn)
    ||| attacked_from(board, square, mover, 1, ahead, pawn)
}

/// One more step along a line: the square one step on from the `k`-th is
/// the `k + 1`-th.
pub proof fn lemma_offset_step(from: Coord, cur: Coord, dx: int, dy: int, k: int)
    requires
        from.offset(k * dx, k * dy) == Some(cur),
    ensures
        cur.offset(dx, dy) == from.offset((k + 1) * dx, (k + 1) * dy),
{
    assert((k + 1) * dx == k * dx + dx) by (nonlinear_arith);
    assert((k + 1) * dy == k * dy + dy) by (nonlinear_arith);
}

/// Whether the piece on the square is of one of the given kinds.
pub fn is_piece_of_type(position: &Position, index: i32, types: &[Piece]) -> (b: bool)
    requires
        0 <= index < 64,
    ensures
        b == (position.kind_at(index as int) matches Some(k) && types@.contains(k)),
{
    let kind = match position.get_piece(index) {
        Some(kind) => kind,
        None => {
            return false;
        },
    };
    let mut i: usize = 0;
    while i < types.len()
        invariant
            i <= types.len(),
            position.kind_at(index as int) == Some(kind),
            forall|j: int| 0 <= j < i ==> types@[j] != kind,
        decreases types.len() - i,
    {
        if types[i] == kind {
            assert(types@[i as int] == kind);
            return true;
        }
        i = i + 1;
    }
    false
}

/// Whether the piece on the square, if any, is on the side that opposes
/// `mover`.
pub fn is_opposing_piece(position: &Position, index: i32, mover: Side) -> (b: bool)
    requires
        0 <= index < 64,
    ensures
        b == position.sides[mover.spec_opposite().spec_index()].has(index as int),
{
    match mover {
        Side::White => position.is_black(index),
        Side::Black => position.is_white(index),
    }
}

/// Whether an opponent of `mover` of one of the given kinds stands on the
/// square.
pub fn has_attacking_piece(
    position: &Position,
    index: i32,
    mover: Side,
    piece_types: &[Piece],
) -> (b: bool)
    requires
        position.wf(),
        0 <= index < 64,
    ensures
        b == is_one_of(position@.board[index as int], mover.spec_opposite(), piece_types@),
{
    proof {
        position.lemma_square(index as int);
    }
    if position.has_piece(index) {
        if is_opposing_piece(position, index, mover) && is_piece_of_type(
            position,
            index,
            piece_types,
        ) {
            return true;
        }
    }
    false
}

/// Looks along one line from the square for an attacker.
fn scout_line(
    position: &Position,
    coord: &Coord,
    dx: i32,
    dy: i32,
    mover: Side,
    piece_types: &[Piece],
) -> (b: bool)
    requires
        position.wf(),
        coord.is_valid(),
    ensures
        b == attacked_along(position@.board, *coord, mover, dx as int, dy as int, piece_types@),
{
    let mut cur = *coord;
    let mut k: i32 = 0;
    proof {
        assert(k * dx == 0 && k * dy == 0) by (nonlinear_arith)
            requires
                k == 0,
        ;
    }
    while k < 7
        invariant
            0 <= k <= 7,
            position.wf(),
            coord.offset(k * dx, k * dy) == Some(cur),
            cur.is_valid(),
            first_on_ray(position@.board, *coord, dx as int, dy as int, 1) == first_on_ray(
                position@.board,
                *coord,
                dx as int,
                dy as int,
                k + 1,
            ),
        decreases 7 - k,
    {
        proof {
            lemma_offset_step(*coord, cur, dx as int, dy as int, k as int);
        }
        match cur.to(dx, dy) {
            Some(next) => {
                let index = next.to_index();
                if position.has_piece(index) {
                    return has_attacking_piece(position, index, mover, piece_types);
                }
                cur = next;
                k = k + 1;
            },
            None => {
                return false;
            },
        }
    }
    false
}

/// Looks on the square one step away for an attacker.
fn scout_step(
    position: &Position,
    coord: &Coord,
    dx: i32,
    dy: i32,
    mover: Side,
    piece_types: &[Piece],
) -> (b: bool)
    requires
        position.wf(),
        coord.is_valid(),
    ensures
        b == attacked_from(position@.board, *coord, mover, dx as int, dy as int, piece_types@),
{
    match coord.to(dx, dy) {
        Some(c) => has_attacking_piece(position, c.to_index(), mover, piece_types),
        None => false,
    }
}

/// Whether a piece that opposes the mover attacks the square. The mover
/// is white where `direction` is positive, and black otherwise.
pub fn is_attacked(position: &Position, coord: &Coord, direction: i32) -> (b: bool)
    requires
        position.wf(),
        coord.is_valid(),
    ensures
        b == attacked(position@.board, *coord, Side::spec_of_direction(direction as int)),
{
    proof {
        reveal(attacked);
    }
    let mover = Side::of_direction(direction);
    let ahead = mover.forward();
    let diagonal = [Piece::B, Piece::Q];
    let straight = [Piece::R, Piece::Q];
    let king = [Piece::K];
    let pawn = [Piece::P];
    proof {
        assert(diagonal@ =~= seq![Piece::B, Piece::Q]);
        assert(straight@ =~= seq![Piece::R, Piece::Q]);
        assert(king@ =~= seq![Piece::K]);
        assert(pawn@ =~= seq![Piece::P]);
    }
    scout_line(position, coord, -1, 1, mover, diagonal.as_slice())
        || scout_line(position, coord, 1, 1, mover, diagonal.as_slice())
        || scout_line(position, coord, 1, -1, mover, diagonal.as_slice())
        || scout_line(position, coord, -1, -1, mover, diagonal.as_slice())
        || scout_line(position, coord, 0, 1, mover, straight.as_slice())
        || scout_line(position, coord, 1, 0, mover, straight.as_slice())
        || scout_line(position, coord, 0, -1, mover, straight.as_slice())
        || scout_line(position, coord, -1, 0, mover, straight.as_slice())
        || scout_step(position, coord, -1, 1, mover, king.as_slice())
        || scout_step(position, coord, 1, 1, mover, king.as_slice())
        || scout_step(position, coord, 1, -1, mover, king.as_slice())
        || scout_step(position, coord, -1, -1, mover, king.as_slice())
        || scout_step(position, coord, 0, 1, mover, king.as_slice())
        || scout_step(position, coord, 1, 0, mover, king.as_slice())
        || scout_step(position, coord, 0, -1, mover, king.as_slice())
        || scout_step(position, coord, -1, 0, mover, king.as_slice())
        || scout_step(position, coord, -1, ahead, mover, pawn.as_slice())
        || scout_step(position, coord, 1, ahead, mover, pawn.as_slice())
}

} // verus!
