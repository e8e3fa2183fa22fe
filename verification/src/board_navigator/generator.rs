//! The candidate moves of the side to move: every move that obeys how the
//! pieces move and what blocks them, whether or not it leaves the mover's
//! own king attacked.

use crate::board_navigator::board_scout::{attacked, is_attacked, lemma_offset_step};
use crate::board_navigator::coord::Coord;
use crate::board_navigator::moves::{CastlingSide, Move, Piece};
use crate::pieces::Side;
use crate::position::{Board, Position, PositionView};
use crate::utils::{coord_from_index, lemma_index_round_trip, spec_coord_from_index};
use vstd::prelude::*;

verus! {

/// A piece stands on `from`, and on `to` a piece of the other side.
pub open spec fn capturable(board: Board, from: Coord, to: Coord) -> bool {
    &&& board[from.index()] matches Some((mover, _))
    &&& board[to.index()] matches Some((target, _))
    &&& mover != target
}

/// The move from `from` onto `to`, if there is one: a quiet move onto an
/// empty square, a capture of a piece of the other side, and none onto any
/// other piece.
pub open spec fn step_move(board: Board, from: Coord, to: Coord) -> Option<Move> {
    if board[to.index()] is None {
        Some(Move::plain(from, to, false))
    } else if capturable(board, from, to) {
        Some(Move::plain(from, to, true))
    } else {
        None
    }
}

/// A move or none as a list of at most one move.
pub open spec fn as_seq(m: Option<Move>) -> Seq<Move> {
    match m {
        Some(m) => seq![m],
        None => Seq::empty(),
    }
}

/// The move one step of `dx` files and `dy` ranks away, if that square is
/// on the board and can be moved onto.
pub open spec fn single_step(board: Board, from: Coord, dx: int, dy: int) -> Seq<Move> {
    match from.offset(dx, dy) {
        Some(to) => as_seq(step_move(board, from, to)),
        None => Seq::empty(),
    }
}

/// The moves of a sliding piece along one line, from its `k`-th step on:
/// onto each square in turn, up to and with the first occupied square or
/// the edge of the board. No line is followed for more than seven steps:
/// that crosses the board.
pub open spec fn ray_moves(board: Board, from: Coord, dx: int, dy: int, k: int) -> Seq<Move>
    decreases 8 - k,
{
    if k < 1 || k > 7 {
        Seq::empty()
    } else {
        match from.offset(k * dx, k * dy) {
            None => Seq::empty(),
            Some(to) => {
                let head = as_seq(step_move(board, from, to));
                if board[to.index()] is Some {
                    head
                } else {
                    head + ray_moves(board, from, dx, dy, k + 1)
                }
            },
        }
    }
}

/// The moves of a bishop: along the four diagonals.
pub open spec fn bishop_moves(board: Board, from: Coord) -> Seq<Move> {
    ray_moves(board, from, 1, 1, 1) + ray_moves(board, from, 1, -1, 1) + ray_moves(
        board,
        from,
        -1,
        -1,
        1,
    ) + ray_moves(board, from, -1, 1, 1)
}

/// The moves of a rook: up, right, down and left.
pub open spec fn rook_moves(board: Board, from: Coord) -> Seq<Move> {
    ray_moves(board, from, 0, 1, 1) + ray_moves(board, from, 1, 0, 1) + ray_moves(
        board,
        from,
        0,
        -1,
        1,
    ) + ray_moves(board, from, -1, 0, 1)
}

/// The moves of a queen: those of a rook, then those of a bishop.
pub open spec fn queen_moves(board: Board, from: Coord) -> Seq<Move> {
    rook_moves(board, from) + bishop_moves(board, from)
}

/// The moves of a knight: its eight leaps, each onto an empty square or a
/// piece of the other side.
pub open spec fn knight_moves(board: Board, from: Coord) -> Seq<Move> {
    single_step(board, from, 2, 1) + single_step(board, from, 1, 2) + single_step(
        board,
        from,
        -1,
        2,
    ) + single_step(board, from, -2, 1) + single_step(board, from, -2, -1) + single_step(
        board,
        from,
        -1,
        -2,
    ) + single_step(board, from, 1, -2) + single_step(board, from, 2, -1)
}

/// The steps of a king onto the eight squares next to it.
pub open spec fn king_steps(board: Board, from: Coord) -> Seq<Move> {
    single_step(board, from, 0, 1) + single_step(board, from, 1, 1) + single_step(
        board,
        from,
        1,
        0,
    ) + single_step(board, from, 1, -1) + single_step(board, from, 0, -1) + single_step(
        board,
        from,
        -1,
        -1,
    ) + single_step(board, from, -1, 0) + single_step(board, from, -1, 1)
}

/// The move of a pawn from `from` to `to` that turns it into a `kind`.
pub open spec fn promotion_move(from: Coord, to: Coord, capture: bool, kind: Piece) -> Move {
    Move { from, to, capture, en_passant: false, castling: None, promotion: Some(kind) }
}

/// The four moves of a pawn onto its last rank: one for each kind it can
/// turn into, knight, bishop, rook and queen.
pub open spec fn promotions(from: Coord, to: Coord, capture: bool) -> Seq<Move> {
    seq![
        promotion_move(from, to, capture, Piece::N),
        promotion_move(from, to, capture, Piece::B),
        promotion_move(from, to, capture, Piece::R),
        promotion_move(from, to, capture, Piece::Q),
    ]
}

/// A pawn of `side` on `from` is one step from its last rank.
pub open spec fn promotes(side: Side, from: Coord) -> bool {
    match side {
        Side::White => from.1 == 7,
        Side::Black => from.1 == 2,
    }
}

/// A pawn of `side` on `from` stands on the rank it starts from.
pub open spec fn on_start_rank(side: Side, from: Coord) -> bool {
    match side {
        Side::White => from.1 == 2,
        Side::Black => from.1 == 7,
    }
}

/// The move of a pawn onto `to`, or its four promotions where it reaches
/// the last rank.
pub open spec fn pawn_arrival(side: Side, from: Coord, to: Coord, capture: bool) -> Seq<Move> {
    if promotes(side, from) {
        promotions(from, to, capture)
    } else {
        seq![Move::plain(from, to, capture)]
    }
}

/// The second square of a pawn's double step, where it may take it: from
/// its starting rank onto an empty square.
pub open spec fn pawn_double_step(board: Board, side: Side, from: Coord) -> Seq<Move> {
    if on_start_rank(side, from) {
        match from.shift_rank(2 * side.spec_forward()) {
            Some(two) => if board[two.index()] is None {
                seq![Move::plain(from, two, false)]
            } else {
                Seq::empty()
            },
            None => Seq::empty(),
        }
    } else {
        Seq::empty()
    }
}

/// The moves of a pawn straight ahead: one square if it is empty, and then
/// two from the starting rank if that square is empty too.
pub open spec fn pawn_forward(board: Board, side: Side, from: Coord) -> Seq<Move> {
    match from.shift_rank(side.spec_forward()) {
        None => Seq::empty(),
        Some(one) => if board[one.index()] is Some {
            Seq::empty()
        } else {
            pawn_arrival(side, from, one, false) + pawn_double_step(board, side, from)
        },
    }
}

/// The move of a pawn that takes in passing on `to`.
pub open spec fn en_passant_move(from: Coord, to: Coord) -> Move {
    Move { from, to, capture: true, en_passant: true, castling: None, promotion: None }
}

/// The captures of a pawn onto one of the two squares diagonally ahead: of
/// a piece of the other side that stands there, or in passing where the
/// square is the en-passant target.
pub open spec fn pawn_capture_onto(
    board: Board,
    side: Side,
    target: Option<Coord>,
    from: Coord,
    to: Option<Coord>,
) -> Seq<Move> {
    match to {
        None => Seq::empty(),
        Some(to) => if board[to.index()] matches Some((s, _)) && s == side.spec_opposite() {
            pawn_arrival(side, from, to, true)
        } else if target == Some(to) {
            seq![en_passant_move(from, to)]
        } else {
            Seq::empty()
        },
    }
}

/// The captures of a pawn, to its left and then to its right as its side
/// looks at the board.
pub open spec fn pawn_captures(board: Board, side: Side, target: Option<Coord>, from: Coord) -> Seq<
    Move,
> {
    let ahead = side.spec_forward();
    pawn_capture_onto(board, side, target, from, from.offset(-ahead, ahead)) + pawn_capture_onto(
        board,
        side,
        target,
        from,
        from.offset(ahead, ahead),
    )
}

/// The moves of a pawn: ahead, then its captures.
pub open spec fn pawn_moves(board: Board, side: Side, target: Option<Coord>, from: Coord) -> Seq<
    Move,
> {
    pawn_forward(board, side, from) + pawn_captures(board, side, target, from)
}

/// The squares between the king and the rook of a castling move, all of
/// which must be empty.
pub open spec fn between(variant: CastlingSide) -> Seq<Coord> {
    match variant {
        CastlingSide::WK => seq![Coord('f', 1), Coord('g', 1)],
        CastlingSide::WQ => seq![Coord('d', 1), Coord('c', 1), Coord('b', 1)],
        CastlingSide::BK => seq![Coord('f', 8), Coord('g', 8)],
        CastlingSide::BQ => seq![Coord('d', 8), Coord('c', 8), Coord('b', 8)],
    }
}

/// The squares the king of a castling move stands on, passes and reaches,
/// none of which may be attacked.
pub open spec fn king_path(variant: CastlingSide) -> Seq<Coord> {
    match variant {
        CastlingSide::WK => seq![Coord('e', 1), Coord('f', 1), Coord('g', 1)],
        CastlingSide::WQ => seq![Coord('e', 1), Coord('d', 1), Coord('c', 1)],
        CastlingSide::BK => seq![Coord('e', 8), Coord('f', 8), Coord('g', 8)],
        CastlingSide::BQ => seq![Coord('e', 8), Coord('d', 8), Coord('c', 8)],
    }
}

/// All of the squares are empty.
pub open spec fn all_empty(board: Board, squares: Seq<Coord>) -> bool {
    forall|i: int| 0 <= i < squares.len() ==> board[(#[trigger] squares[i]).index()] is None
}

/// None of the squares is attacked by the side that opposes `mover`.
pub open spec fn none_attacked(board: Board, squares: Seq<Coord>, mover: Side) -> bool {
    forall|i: int| 0 <= i < squares.len() ==> !attacked(board, #[trigger] squares[i], mover)
}

/// Whether the side of a castling variant may castle that way: it holds the
/// right, the squares between king and rook are empty, and the king is not
/// attacked where it stands, passes or arrives.
pub open spec fn can_castle(v: PositionView, variant: CastlingSide) -> bool {
    &&& v.castling.allows(variant)
    &&& all_empty(v.board, between(variant))
    &&& none_attacked(v.board, king_path(variant), variant.spec_side())
}

/// The move of the king that castles.
pub open spec fn castling_move(variant: CastlingSide) -> Move {
    Move {
        from: variant.spec_king_from(),
        to: variant.spec_king_to(),
        capture: false,
        en_passant: false,
        castling: Some(variant),
        promotion: None,
    }
}

/// The castling move of a king on `from`, if it stands on the square it
/// castles from and may castle that way.
pub open spec fn castling_by(v: PositionView, from: Coord, variant: CastlingSide) -> Seq<Move> {
    if from == variant.spec_king_from() && can_castle(v, variant) {
        seq![castling_move(variant)]
    } else {
        Seq::empty()
    }
}

/// The castling moves of a king of `side` on `from`: to the king's wing,
/// then to the queen's.
pub open spec fn castling_moves(v: PositionView, side: Side, from: Coord) -> Seq<Move> {
    match side {
        Side::White => castling_by(v, from, CastlingSide::WK) + castling_by(
            v,
            from,
            CastlingSide::WQ,
        ),
        Side::Black => castling_by(v, from, CastlingSide::BK) + castling_by(
            v,
            from,
            CastlingSide::BQ,
        ),
    }
}

/// The moves of a king: its steps, then its castling moves.
pub open spec fn king_moves(v: PositionView, side: Side, from: Coord) -> Seq<Move> {
    king_steps(v.board, from) + castling_moves(v, side, from)
}

/// The moves of a piece of `side` and `kind` on `from`.
pub open spec fn piece_moves(v: PositionView, side: Side, kind: Piece, from: Coord) -> Seq<Move> {
    match kind {
        Piece::P => pawn_moves(v.board, side, v.en_passant_target, from),
        Piece::B => bishop_moves(v.board, from),
        Piece::N => knight_moves(v.board, from),
        Piece::R => rook_moves(v.board, from),
        Piece::Q => queen_moves(v.board, from),
        Piece::K => king_moves(v, side, from),
    }
}

/// The moves from square `i`: those of the piece that stands there, if it
/// belongs to the side to move.
pub open spec fn moves_from(v: PositionView, i: int) -> Seq<Move> {
    match v.board[i] {
        Some((side, kind)) => if side == v.active_colour {
            piece_moves(v, side, kind, spec_coord_from_index(i))
        } else {
            Seq::empty()
        },
        None => Seq::empty(),
    }
}

/// The moves from the squares below `n`, square by square in ascending
/// order.
pub open spec fn moves_below(v: PositionView, n: int) -> Seq<Move>
    decreases n,
{
    if n <= 0 {
        Seq::empty()
    } else {
        moves_below(v, n - 1) + moves_from(v, n - 1)
    }
}

/// All candidate moves of the side to move.
pub open spec fn all_moves(v: PositionView) -> Seq<Move> {
    moves_below(v, 64)
}

/// The move from `from` onto `to`, if there is one, and whether `to` is
/// occupied, which ends a line.
pub fn get_move_to(position: &Position, from: &Coord, to: &Coord) -> (r: (Option<Move>, bool))
    requires
        position.wf(),
        from.is_valid(),
        to.is_valid(),
    ensures
        r.0 == step_move(position@.board, *from, *to),
        r.1 == (position@.board[to.index()] is Some),
{
    let next_index = to.to_index();
    let from_index = from.to_index();
    proof {
        position.lemma_square(next_index as int);
        position.lemma_square(from_index as int);
    }
    let is_blocked = position.has_piece(next_index);
    let has_capturable_piece = is_blocked && ((position.is_white(from_index) && position.is_black(
        next_index,
    )) || (position.is_black(from_index) && position.is_white(next_index)));
    if !is_blocked || has_capturable_piece {
        (
            Some(
                Move {
                    from: *from,
                    to: *to,
                    capture: has_capturable_piece,
                    en_passant: false,
                    castling: None,
                    promotion: None,
                },
            ),
            is_blocked,
        )
    } else {
        (None, is_blocked)
    }
}

/// The move one step away in a direction, if there is one.
pub fn get_move_in_direction(position: &Position, from: &Coord, direction: (i32, i32)) -> (r:
    Option<Move>)
    requires
        position.wf(),
        from.is_valid(),
    ensures
        as_seq(r) == single_step(position@.board, *from, direction.0 as int, direction.1 as int),
{
    if let Some(to) = from.to(direction.0, direction.1) {
        return get_move_to(position, from, &to).0;
    }
    None
}

/// The moves along one line until it is blocked: onto every empty square in
/// turn, and onto the first occupied square if a piece of the other side
/// stands there.
pub fn get_moves_in_direction_until_blocked(
    position: &Position,
    coord: Coord,
    direction: (i32, i32),
) -> (movements: Vec<Move>)
    requires
        position.wf(),
        coord.is_valid(),
    ensures
        movements@ == ray_moves(
            position@.board,
            coord,
            direction.0 as int,
            direction.1 as int,
            1,
        ),
{
    let mut movements: Vec<Move> = Vec::new();
    let mut current_coord = coord;
    let mut k: i32 = 0;
    let ghost dx = direction.0 as int;
    let ghost dy = direction.1 as int;
    proof {
        assert(k * dx == 0 && k * dy == 0) by (nonlinear_arith)
            requires
                k == 0,
        ;
    }
    while k < 7
        invariant
            0 <= k <= 7,
            position.wf(),
            dx == direction.0,
            dy == direction.1,
            coord.offset(k * dx, k * dy) == Some(current_coord),
            coord.is_valid(),
            current_coord.is_valid(),
            ray_moves(position@.board, coord, dx, dy, 1) == movements@ + ray_moves(
                position@.board,
                coord,
                dx,
                dy,
                k + 1,
            ),
        decreases 7 - k,
    {
        proof {
            lemma_offset_step(coord, current_coord, dx, dy, k as int);
        }
        let ghost before = movements@;
        let ghost rest = ray_moves(position@.board, coord, dx, dy, k + 2);
        match current_coord.to(direction.0, direction.1) {
            Some(next_coord) => {
                let (move_option, is_blocked) = get_move_to(position, &coord, &next_coord);
                if let Some(m) = move_option {
                    movements.push(m);
                }
                if is_blocked {
                    proof {
                        assert(movements@ =~= before + as_seq(move_option));
                        assert(movements@ =~= ray_moves(position@.board, coord, dx, dy, 1));
                    }
                    return movements;
                }
                proof {
                    assert(movements@ =~= before + as_seq(move_option));
                    assert(before + (as_seq(move_option) + rest) =~= movements@ + rest);
                }
                current_coord = next_coord;
                k = k + 1;
            },
            None => {
                proof {
                    assert(movements@ =~= ray_moves(position@.board, coord, dx, dy, 1));
                }
                return movements;
            },
        }
    }
    proof {
        assert(movements@ =~= ray_moves(position@.board, coord, dx, dy, 1));
    }
    movements
}

/// The moves of the bishop on a square.
pub fn get_bishop_movements(position: &Position, index: i32) -> (movements: Vec<Move>)
    requires
        position.wf(),
        0 <= index < 64,
    ensures
        movements@ == bishop_moves(position@.board, spec_coord_from_index(index as int)),
{
    let coord = coord_from_index(index);
    let mut movements = get_moves_in_direction_until_blocked(position, coord, (1, 1));
    let mut second = get_moves_in_direction_until_blocked(position, coord, (1, -1));
    let mut third = get_moves_in_direction_until_blocked(position, coord, (-1, -1));
    let mut fourth = get_moves_in_direction_until_blocked(position, coord, (-1, 1));
    movements.append(&mut second);
    movements.append(&mut third);
    movements.append(&mut fourth);
    movements
}

/// The moves of the rook on a square.
pub fn get_rook_movements(position: &Position, index: i32) -> (movements: Vec<Move>)
    requires
        position.wf(),
        0 <= index < 64,
    ensures
        movements@ == rook_moves(position@.board, spec_coord_from_index(index as int)),
{
    let coord = coord_from_index(index);
    let mut movements = get_moves_in_direction_until_blocked(position, coord, (0, 1));
    let mut second = get_moves_in_direction_until_blocked(position, coord, (1, 0));
    let mut third = get_moves_in_direction_until_blocked(position, coord, (0, -1));
    let mut fourth = get_moves_in_direction_until_blocked(position, coord, (-1, 0));
    movements.append(&mut second);
    movements.append(&mut third);
    movements.append(&mut fourth);
    movements
}

/// The moves of the queen on a square.
pub fn get_queen_movements(position: &Position, index: i32) -> (movements: Vec<Move>)
    requires
        position.wf(),
        0 <= index < 64,
    ensures
        movements@ == queen_moves(position@.board, spec_coord_from_index(index as int)),
{
    let mut movements = get_rook_movements(position, index);
    let mut diagonal = get_bishop_movements(position, index);
    movements.append(&mut diagonal);
    movements
}

/// Adds the move one step away in a direction, if there is one.
fn push_step(movements: &mut Vec<Move>, position: &Position, coord: &Coord, dx: i32, dy: i32)
    requires
        position.wf(),
        coord.is_valid(),
    ensures
        final(movements)@ == old(movements)@ + single_step(
            position@.board,
            *coord,
            dx as int,
            dy as int,
        ),
{
    match get_move_in_direction(position, coord, (dx, dy)) {
        Some(m) => {
            movements.push(m);
            proof {
                assert(movements@ =~= old(movements)@ + seq![m]);
            }
        },
        None => {
            proof {
                assert(movements@ =~= old(movements)@ + Seq::<Move>::empty());
            }
        },
    }
}

/// The moves of the knight on a square.
pub fn get_knight_movements(position: &Position, index: i32) -> (movements: Vec<Move>)
    requires
        position.wf(),
        0 <= index < 64,
    ensures
        movements@ == knight_moves(position@.board, spec_coord_from_index(index as int)),
{
    let mut movements: Vec<Move> = Vec::new();
    let coord = coord_from_index(index);
    push_step(&mut movements, position, &coord, 2, 1);
    push_step(&mut movements, position, &coord, 1, 2);
    push_step(&mut movements, position, &coord, -1, 2);
    push_step(&mut movements, position, &coord, -2, 1);
    push_step(&mut movements, position, &coord, -2, -1);
    push_step(&mut movements, position, &coord, -1, -2);
    push_step(&mut movements, position, &coord, 1, -2);
    push_step(&mut movements, position, &coord, 2, -1);
    proof {
        assert(movements@ =~= knight_moves(position@.board, coord));
    }
    movements
}

/// Whether every one of the squares is empty and none is attacked by the
/// side that opposes `side`.
pub fn are_coords_clear(position: &Position, coords: &[Coord], side: Side) -> (b: bool)
    requires
        position.wf(),
        forall|i: int| 0 <= i < coords@.len() ==> (#[trigger] coords@[i]).is_valid(),
    ensures
        b == (all_empty(position@.board, coords@) && none_attacked(
            position@.board,
            coords@,
            side,
        )),
{
    let direction = side.forward();
    let mut i: usize = 0;
    while i < coords.len()
        invariant
            i <= coords.len(),
            position.wf(),
            direction == side.spec_forward(),
            forall|j: int| 0 <= j < coords@.len() ==> (#[trigger] coords@[j]).is_valid(),
            forall|j: int| 0 <= j < i ==> position@.board[(#[trigger] coords@[j]).index()] is None,
            forall|j: int| 0 <= j < i ==> !attacked(position@.board, #[trigger] coords@[j], side),
        decreases coords.len() - i,
    {
        let coord = coords[i];
        if position.has_piece(coord.to_index()) {
            return false;
        }
        if is_attacked(position, &coord, direction) {
            return false;
        }
        i = i + 1;
    }
    true
}

/// Whether the first king of `side`, in the order of the squares, is
/// attacked. A side without a king is not in check.
pub fn is_in_check(position: &Position, side: Side) -> (b: bool)
    requires
        position.wf(),
    ensures
        b == (exists|i: int|
            0 <= i < 64 && #[trigger] position@.board[i] == Some((side, Piece::K)) && (forall|
                j: int,
            |
                0 <= j < i ==> #[trigger] position@.board[j] != Some((side, Piece::K))) && attacked(
                position@.board,
                spec_coord_from_index(i),
                side,
            )),
{
    let mut i: i32 = 0;
    while i < 64
        invariant
            0 <= i <= 64,
            position.wf(),
            forall|j: int| 0 <= j < i ==> #[trigger] position@.board[j] != Some((side, Piece::K)),
        decreases 64 - i,
    {
        match position.occupant(i) {
            Some((s, k)) => {
                if s == side && k == Piece::K {
                    let king_coord = coord_from_index(i);
                    let b = is_attacked(position, &king_coord, side.forward());
                    proof {
                        assert(position@.board[i as int] == Some((side, Piece::K)));
                    }
                    return b;
                }
            },
            None => {},
        }
        i = i + 1;
    }
    false
}

/// What it means for two squares to be empty and unattacked, square by
/// square.
pub proof fn lemma_two_squares(board: Board, a: Coord, b: Coord, side: Side)
    ensures
        all_empty(board, seq![a, b]) == (board[a.index()] is None && board[b.index()] is None),
        none_attacked(board, seq![a, b], side) == (!attacked(board, a, side) && !attacked(
            board,
            b,
            side,
        )),
{
    let s = seq![a, b];
    assert(s[0] == a && s[1] == b);
}

/// What it means for three squares to be empty and unattacked, square by
/// square.
pub proof fn lemma_three_squares(board: Board, a: Coord, b: Coord, c: Coord, side: Side)
    ensures
        all_empty(board, seq![a, b, c]) == (board[a.index()] is None && board[b.index()] is None
            && board[c.index()] is None),
        none_attacked(board, seq![a, b, c], side) == (!attacked(board, a, side) && !attacked(
            board,
            b,
            side,
        ) && !attacked(board, c, side)),
{
    let s = seq![a, b, c];
    assert(s[0] == a && s[1] == b && s[2] == c);
}

/// Whether the side of a castling variant may castle that way.
pub fn may_castle(position: &Position, variant: CastlingSide) -> (b: bool)
    requires
        position.wf(),
    ensures
        b == can_castle(position@, variant),
{
    let held = match variant {
        CastlingSide::WK => position.castling.K,
        CastlingSide::WQ => position.castling.Q,
        CastlingSide::BK => position.castling.k,
        CastlingSide::BQ => position.castling.q,
    };
    if !held {
        return false;
    }
    let side = variant.side();
    let rank: u8 = match side {
        Side::White => 1,
        Side::Black => 8,
    };
    let home = Coord('e', rank);
    let ghost board = position@.board;
    match variant {
        CastlingSide::WK | CastlingSide::BK => {
            let transit = [Coord('f', rank), Coord('g', rank)];
            proof {
                assert(transit@ =~= seq![Coord('f', rank), Coord('g', rank)]);
                assert(between(variant) =~= seq![Coord('f', rank), Coord('g', rank)]);
                assert(king_path(variant) =~= seq![home, Coord('f', rank), Coord('g', rank)]);
                lemma_two_squares(board, Coord('f', rank), Coord('g', rank), side);
                lemma_three_squares(board, home, Coord('f', rank), Coord('g', rank), side);
            }
            are_coords_clear(position, transit.as_slice(), side) && !is_attacked(
                position,
                &home,
                side.forward(),
            )
        },
        CastlingSide::WQ | CastlingSide::BQ => {
            let transit = [Coord('d', rank), Coord('c', rank)];
            proof {
                assert(transit@ =~= seq![Coord('d', rank), Coord('c', rank)]);
                assert(between(variant) =~= seq![
                    Coord('d', rank),
                    Coord('c', rank),
                    Coord('b', rank),
                ]);
                assert(king_path(variant) =~= seq![home, Coord('d', rank), Coord('c', rank)]);
                lemma_two_squares(board, Coord('d', rank), Coord('c', rank), side);
                lemma_three_squares(
                    board,
                    Coord('d', rank),
                    Coord('c', rank),
                    Coord('b', rank),
                    side,
                );
                lemma_three_squares(board, home, Coord('d', rank), Coord('c', rank), side);
            }
            are_coords_clear(position, transit.as_slice(), side) && !position.has_piece(
                Coord('b', rank).to_index(),
            ) && !is_attacked(position, &home, side.forward())
        },
    }
}

/// Adds the castling move of a king on `from`, if there is one.
fn push_castling(
    movements: &mut Vec<Move>,
    position: &Position,
    from: &Coord,
    variant: CastlingSide,
)
    requires
        position.wf(),
    ensures
        final(movements)@ == old(movements)@ + castling_by(position@, *from, variant),
{
    let home = match variant {
        CastlingSide::WK | CastlingSide::WQ => Coord('e', 1),
        CastlingSide::BK | CastlingSide::BQ => Coord('e', 8),
    };
    if from.0 == home.0 && from.1 == home.1 && may_castle(position, variant) {
        movements.push(
            Move {
                from: *from,
                to: variant.king_to(),
                capture: false,
                en_passant: false,
                castling: Some(variant),
                promotion: None,
            },
        );
        proof {
            assert(movements@ =~= old(movements)@ + seq![castling_move(variant)]);
        }
    } else {
        proof {
            assert(movements@ =~= old(movements)@ + Seq::<Move>::empty());
        }
    }
}

/// The moves of the king of `side` on a square.
pub fn get_king_movements(position: &Position, side: Side, index: i32) -> (movements: Vec<Move>)
    requires
        position.wf(),
        0 <= index < 64,
    ensures
        movements@ == king_moves(position@, side, spec_coord_from_index(index as int)),
{
    let mut movements: Vec<Move> = Vec::new();
    let coord = coord_from_index(index);
    push_step(&mut movements, position, &coord, 0, 1);
    push_step(&mut movements, position, &coord, 1, 1);
    push_step(&mut movements, position, &coord, 1, 0);
    push_step(&mut movements, position, &coord, 1, -1);
    push_step(&mut movements, position, &coord, 0, -1);
    push_step(&mut movements, position, &coord, -1, -1);
    push_step(&mut movements, position, &coord, -1, 0);
    push_step(&mut movements, position, &coord, -1, 1);
    proof {
        assert(movements@ =~= king_steps(position@.board, coord));
    }
    match side {
        Side::White => {
            push_castling(&mut movements, position, &coord, CastlingSide::WK);
            push_castling(&mut movements, position, &coord, CastlingSide::WQ);
        },
        Side::Black => {
            push_castling(&mut movements, position, &coord, CastlingSide::BK);
            push_castling(&mut movements, position, &coord, CastlingSide::BQ);
        },
    }
    proof {
        assert(movements@ =~= king_moves(position@, side, coord));
    }
    movements
}

/// The four promotions of a pawn that goes from `from` to `to`.
pub fn get_pawn_promotion_movements(from: Coord, to: Coord, capture: bool) -> (movements: Vec<
    Move,
>)
    ensures
        movements@ == promotions(from, to, capture),
{
    let mut movements: Vec<Move> = Vec::new();
    let kinds = [Piece::N, Piece::B, Piece::R, Piece::Q];
    let mut i: usize = 0;
    while i < 4
        invariant
            i <= 4,
            kinds@ == seq![Piece::N, Piece::B, Piece::R, Piece::Q],
            movements@.len() == i,
            forall|j: int|
                0 <= j < i ==> #[trigger] movements@[j] == promotion_move(
                    from,
                    to,
                    capture,
                    kinds@[j],
                ),
        decreases 4 - i,
    {
        movements.push(
            Move {
                from,
                to,
                capture,
                en_passant: false,
                castling: None,
                promotion: Some(kinds[i]),
            },
        );
        i = i + 1;
    }
    proof {
        assert(movements@ =~= promotions(from, to, capture));
    }
    movements
}

/// The move of a pawn onto `to`, or its promotions there.
fn pawn_arrivals(side: Side, from: Coord, to: Coord, capture: bool) -> (movements: Vec<Move>)
    ensures
        movements@ == pawn_arrival(side, from, to, capture),
{
    let promotion_available = match side {
        Side::White => from.1 == 7,
        Side::Black => from.1 == 2,
    };
    if promotion_available {
        get_pawn_promotion_movements(from, to, capture)
    } else {
        let mut movements: Vec<Move> = Vec::new();
        movements.push(
            Move { from, to, capture, en_passant: false, castling: None, promotion: None },
        );
        proof {
            assert(movements@ =~= seq![Move::plain(from, to, capture)]);
        }
        movements
    }
}

/// The moves of a pawn of `side` straight ahead.
pub fn get_pawn_movements_forward(position: &Position, side: Side, coord: Coord) -> (movements:
    Vec<Move>)
    requires
        position.wf(),
        coord.is_valid(),
    ensures
        movements@ == pawn_forward(position@.board, side, coord),
{
    let direction = side.forward();
    let one = match coord.n(direction, 1) {
        Some(one) => one,
        None => {
            return Vec::new();
        },
    };
    if position.has_piece(one.to_index()) {
        return Vec::new();
    }
    let mut movements = pawn_arrivals(side, coord, one, false);
    let is_first_move = match side {
        Side::White => coord.1 == 2,
        Side::Black => coord.1 == 7,
    };
    let ghost first = movements@;
    if is_first_move {
        if let Some(two) = coord.n(direction, 2) {
            if !position.has_piece(two.to_index()) {
                movements.push(
                    Move {
                        from: coord,
                        to: two,
                        capture: false,
                        en_passant: false,
                        castling: None,
                        promotion: None,
                    },
                );
            }
        }
    }
    proof {
        assert(movements@ =~= first + pawn_double_step(position@.board, side, coord));
    }
    movements
}

/// The captures of a pawn onto one square diagonally ahead.
fn pawn_captures_onto(position: &Position, side: Side, coord: Coord, to: Option<Coord>) -> (movements:
    Vec<Move>)
    requires
        position.wf(),
        coord.is_valid(),
        to matches Some(t) ==> t.is_valid(),
    ensures
        movements@ == pawn_capture_onto(
            position@.board,
            side,
            position.en_passant_target,
            coord,
            to,
        ),
{
    let to = match to {
        Some(to) => to,
        None => {
            return Vec::new();
        },
    };
    let index_of_capture = to.to_index();
    proof {
        position.lemma_square(index_of_capture as int);
        lemma_index_round_trip();
    }
    let holds_opponent = position.has_piece(index_of_capture) && match side {
        Side::White => position.is_black(index_of_capture),
        Side::Black => position.is_white(index_of_capture),
    };
    if holds_opponent {
        pawn_arrivals(side, coord, to, true)
    } else if position.is_en_passant_target(index_of_capture) {
        let mut movements: Vec<Move> = Vec::new();
        movements.push(
            Move {
                from: coord,
                to,
                capture: true,
                en_passant: true,
                castling: None,
                promotion: None,
            },
        );
        proof {
            assert(movements@ =~= seq![en_passant_move(coord, to)]);
        }
        movements
    } else {
        Vec::new()
    }
}

/// The captures of a pawn of `side`.
pub fn get_pawn_captures(position: &Position, side: Side, coord: Coord) -> (movements: Vec<Move>)
    requires
        position.wf(),
        coord.is_valid(),
    ensures
        movements@ == pawn_captures(position@.board, side, position.en_passant_target, coord),
{
    let direction = side.forward();
    let nw_coord = coord.nw(direction, 1);
    let ne_coord = coord.ne(direction, 1);
    let mut movements = pawn_captures_onto(position, side, coord, nw_coord);
    let mut right = pawn_captures_onto(position, side, coord, ne_coord);
    movements.append(&mut right);
    movements
}

/// The moves of the pawn of `side` on a square.
pub fn get_pawn_movements(position: &Position, side: Side, index: i32) -> (movements: Vec<Move>)
    requires
        position.wf(),
        0 <= index < 64,
    ensures
        movements@ == pawn_moves(
            position@.board,
            side,
            position.en_passant_target,
            spec_coord_from_index(index as int),
        ),
{
    let mut movements = get_pawn_movements_forward(position, side, coord_from_index(index));
    let mut captures = get_pawn_captures(position, side, coord_from_index(index));
    movements.append(&mut captures);
    movements
}

/// All candidate moves of the side to move, square by square in ascending
/// order and, for each piece, in the order of its directions.
pub fn get_piece_movements(position: &Position) -> (movements: Vec<Move>)
    requires
        position.wf(),
    ensures
        movements@ == all_moves(position@),
{
    let side = position.active_colour;
    let mut movements: Vec<Move> = Vec::new();
    let mut i: i32 = 0;
    while i < 64
        invariant
            0 <= i <= 64,
            position.wf(),
            side == position.active_colour,
            movements@ == moves_below(position@, i as int),
        decreases 64 - i,
    {
        let ghost before = movements@;
        match position.occupant(i) {
            Some((s, kind)) => {
                if s == side {
                    let mut found = match kind {
                        Piece::P => get_pawn_movements(position, side, i),
                        Piece::B => get_bishop_movements(position, i),
                        Piece::N => get_knight_movements(position, i),
                        Piece::R => get_rook_movements(position, i),
                        Piece::Q => get_queen_movements(position, i),
                        Piece::K => get_king_movements(position, side, i),
                    };
                    movements.append(&mut found);
                }
            },
            None => {},
        }
        proof {
            assert(movements@ =~= before + moves_from(position@, i as int));
        }
        i = i + 1;
    }
    movements
}


/// The square `j` steps of `dx` files and `dy` ranks from `from`.
pub open spec fn square_at(from: Coord, dx: int, dy: int, j: int) -> Option<Coord> {
    from.offset(j * dx, j * dy)
}

/// What the moves along a line from step `k` on look like, see
/// [`lemma_ray_stops_at_first_piece`].
pub open spec fn ray_shape(board: Board, from: Coord, dx: int, dy: int, k: int, r: Seq<Move>) -> bool {
    let n = r.len() as int;
    &&& n <= 8 - k
    &&& forall|j: int|
        0 <= j < n ==> (square_at(from, dx, dy, k + j) matches Some(to) && #[trigger] r[j]
            == Move::plain(from, to, board[to.index()] is Some))
    &&& forall|j: int| 0 <= j < n - 1 ==> board[(#[trigger] r[j]).to.index()] is None
    &&& n > 0 && board[r[n - 1].to.index()] is Some ==> capturable(board, from, r[n - 1].to)
    &&& (n == 0 || board[r[n - 1].to.index()] is None) && k + n <= 7 ==> (square_at(
        from,
        dx,
        dy,
        k + n,
    ) matches Some(next) ==> board[next.index()] is Some && !capturable(board, from, next))
}

/// The shape of the moves along a line from any step on.
proof fn lemma_ray_shape(board: Board, from: Coord, dx: int, dy: int, k: int)
    requires
        1 <= k <= 8,
    ensures
        ray_shape(board, from, dx, dy, k, ray_moves(board, from, dx, dy, k)),
    decreases 8 - k,
{
    let r = ray_moves(board, from, dx, dy, k);
    if k <= 7 {
        match from.offset(k * dx, k * dy) {
            None => {},
            Some(to) => {
                let head = as_seq(step_move(board, from, to));
                if board[to.index()] is Some {
                    assert(r == head);
                } else {
                    let rest = ray_moves(board, from, dx, dy, k + 1);
                    lemma_ray_shape(board, from, dx, dy, k + 1);
                    assert(r == head + rest);
                    assert(head == seq![Move::plain(from, to, false)]);
                    assert(r[0] == Move::plain(from, to, false));
                    assert forall|j: int| 1 <= j < r.len() implies #[trigger] r[j] == rest[j - 1] by {}
                    let n = r.len() as int;
                    assert forall|j: int| 0 <= j < n implies (square_at(from, dx, dy, k + j) matches Some(
                        t,
                    ) && #[trigger] r[j] == Move::plain(from, t, board[t.index()] is Some)) by {
                        if j >= 1 {
                            assert(r[j] == rest[j - 1]);
                            assert(k + j == (k + 1) + (j - 1));
                        }
                    }
                    assert forall|j: int| 0 <= j < n - 1 implies board[(#[trigger] r[j]).to.index()] is None by {
                        if j >= 1 {
                            assert(r[j] == rest[j - 1]);
                        }
                    }
                    if n > 1 {
                        assert(r[n - 1] == rest[n - 2]);
                    }
                    assert(k + n == (k + 1) + rest.len());
                }
            },
        }
    }
}

/// A sliding piece's moves along a line stop at the first occupied square.
///
/// The moves go onto the squares of the line in turn, one step after the
/// other. Every square but the last one moved onto is empty. The last is
/// either empty, or it holds a piece of the other side, which the move
/// captures; a move is marked as a capture exactly when its destination is
/// occupied. Where the moves end on an empty square, or there are none, the
/// next square of the line is off the board or holds a piece that cannot be
/// captured, unless seven steps have been made.
pub proof fn lemma_ray_stops_at_first_piece(board: Board, from: Coord, dx: int, dy: int)
    ensures
        ray_shape(board, from, dx, dy, 1, ray_moves(board, from, dx, dy, 1)),
{
    lemma_ray_shape(board, from, dx, dy, 1);
}

/// Every castling move in the list is one that the position allows.
pub open spec fn castles_as_allowed(v: PositionView, s: Seq<Move>) -> bool {
    forall|j: int|
        0 <= j < s.len() ==> ((#[trigger] s[j]).castling matches Some(c) ==> can_castle(v, c))
}

/// Two lists that castle as allowed do so when joined.
proof fn lemma_castles_join(v: PositionView, a: Seq<Move>, b: Seq<Move>)
    requires
        castles_as_allowed(v, a),
        castles_as_allowed(v, b),
    ensures
        castles_as_allowed(v, a + b),
{
    let s = a + b;
    assert forall|j: int| 0 <= j < s.len() implies ((#[trigger] s[j]).castling matches Some(c)
        ==> can_castle(v, c)) by {
        if j < a.len() {
            assert(s[j] == a[j]);
        } else {
            assert(s[j] == b[j - a.len()]);
        }
    }
}

/// The moves along a line do not castle.
proof fn lemma_ray_castles(v: PositionView, from: Coord, dx: int, dy: int, k: int)
    ensures
        castles_as_allowed(v, ray_moves(v.board, from, dx, dy, k)),
    decreases 8 - k,
{
    if 1 <= k <= 7 {
        match from.offset(k * dx, k * dy) {
            None => {},
            Some(to) => {
                let head = as_seq(step_move(v.board, from, to));
                if v.board[to.index()] is None {
                    lemma_ray_castles(v, from, dx, dy, k + 1);
                    lemma_castles_join(v, head, ray_moves(v.board, from, dx, dy, k + 1));
                }
            },
        }
    }
}

/// The moves of a rook do not castle.
proof fn lemma_rook_castles(v: PositionView, from: Coord)
    ensures
        castles_as_allowed(v, rook_moves(v.board, from)),
{
    let b = v.board;
    lemma_ray_castles(v, from, 0, 1, 1);
    lemma_ray_castles(v, from, 1, 0, 1);
    lemma_ray_castles(v, from, 0, -1, 1);
    lemma_ray_castles(v, from, -1, 0, 1);
    let a1 = ray_moves(b, from, 0, 1, 1) + ray_moves(b, from, 1, 0, 1);
    lemma_castles_join(v, ray_moves(b, from, 0, 1, 1), ray_moves(b, from, 1, 0, 1));
    lemma_castles_join(v, a1, ray_moves(b, from, 0, -1, 1));
    lemma_castles_join(v, a1 + ray_moves(b, from, 0, -1, 1), ray_moves(b, from, -1, 0, 1));
}

/// The moves of a bishop do not castle.
proof fn lemma_bishop_castles(v: PositionView, from: Coord)
    ensures
        castles_as_allowed(v, bishop_moves(v.board, from)),
{
    let b = v.board;
    lemma_ray_castles(v, from, 1, 1, 1);
    lemma_ray_castles(v, from, 1, -1, 1);
    lemma_ray_castles(v, from, -1, -1, 1);
    lemma_ray_castles(v, from, -1, 1, 1);
    let a1 = ray_moves(b, from, 1, 1, 1) + ray_moves(b, from, 1, -1, 1);
    lemma_castles_join(v, ray_moves(b, from, 1, 1, 1), ray_moves(b, from, 1, -1, 1));
    lemma_castles_join(v, a1, ray_moves(b, from, -1, -1, 1));
    lemma_castles_join(v, a1 + ray_moves(b, from, -1, -1, 1), ray_moves(b, from, -1, 1, 1));
}

/// Eight lists that castle as allowed do so when joined.
proof fn lemma_castles_join_eight(
    v: PositionView,
    a: Seq<Move>,
    b: Seq<Move>,
    c: Seq<Move>,
    d: Seq<Move>,
    e: Seq<Move>,
    f: Seq<Move>,
    g: Seq<Move>,
    h: Seq<Move>,
)
    requires
        castles_as_allowed(v, a),
        castles_as_allowed(v, b),
        castles_as_allowed(v, c),
        castles_as_allowed(v, d),
        castles_as_allowed(v, e),
        castles_as_allowed(v, f),
        castles_as_allowed(v, g),
        castles_as_allowed(v, h),
    ensures
        castles_as_allowed(v, a + b + c + d + e + f + g + h),
{
    lemma_castles_join(v, a, b);
    lemma_castles_join(v, a + b, c);
    lemma_castles_join(v, a + b + c, d);
    lemma_castles_join(v, a + b + c + d, e);
    lemma_castles_join(v, a + b + c + d + e, f);
    lemma_castles_join(v, a + b + c + d + e + f, g);
    lemma_castles_join(v, a + b + c + d + e + f + g, h);
}

/// The castling moves of a king are allowed.
proof fn lemma_king_castles(v: PositionView, side: Side, from: Coord)
    ensures
        castles_as_allowed(v, king_moves(v, side, from)),
{
    let b = v.board;
    lemma_step_castles(v, from, 0, 1);
    lemma_step_castles(v, from, 1, 1);
    lemma_step_castles(v, from, 1, 0);
    lemma_step_castles(v, from, 1, -1);
    lemma_step_castles(v, from, 0, -1);
    lemma_step_castles(v, from, -1, -1);
    lemma_step_castles(v, from, -1, 0);
    lemma_step_castles(v, from, -1, 1);
    lemma_castles_join_eight(
        v,
        single_step(b, from, 0, 1),
        single_step(b, from, 1, 1),
        single_step(b, from, 1, 0),
        single_step(b, from, 1, -1),
        single_step(b, from, 0, -1),
        single_step(b, from, -1, -1),
        single_step(b, from, -1, 0),
        single_step(b, from, -1, 1),
    );
    match side {
        Side::White => {
            lemma_castles_join(
                v,
                castling_by(v, from, CastlingSide::WK),
                castling_by(v, from, CastlingSide::WQ),
            );
        },
        Side::Black => {
            lemma_castles_join(
                v,
                castling_by(v, from, CastlingSide::BK),
                castling_by(v, from, CastlingSide::BQ),
            );
        },
    }
    lemma_castles_join(v, king_steps(b, from), castling_moves(v, side, from));
}

/// A single step does not castle.
proof fn lemma_step_castles(v: PositionView, from: Coord, dx: int, dy: int)
    ensures
        castles_as_allowed(v, single_step(v.board, from, dx, dy)),
{
}

/// The arrival of a pawn does not castle.
proof fn lemma_arrival_castles(v: PositionView, side: Side, from: Coord, to: Coord, capture: bool)
    ensures
        castles_as_allowed(v, pawn_arrival(side, from, to, capture)),
{
}

/// The captures of a pawn onto one square do not castle.
proof fn lemma_capture_castles(v: PositionView, side: Side, from: Coord, to: Option<Coord>)
    ensures
        castles_as_allowed(
            v,
            pawn_capture_onto(v.board, side, v.en_passant_target, from, to),
        ),
{
    match to {
        Some(to) => {
            lemma_arrival_castles(v, side, from, to, true);
        },
        None => {},
    }
}

/// The moves of a pawn do not castle.
proof fn lemma_pawn_castles(v: PositionView, side: Side, from: Coord)
    ensures
        castles_as_allowed(v, pawn_moves(v.board, side, v.en_passant_target, from)),
{
    let b = v.board;
    let ahead = side.spec_forward();
    let target = v.en_passant_target;
    let left = pawn_capture_onto(b, side, target, from, from.offset(-ahead, ahead));
    let right = pawn_capture_onto(b, side, target, from, from.offset(ahead, ahead));
    lemma_capture_castles(v, side, from, from.offset(-ahead, ahead));
    lemma_capture_castles(v, side, from, from.offset(ahead, ahead));
    lemma_castles_join(v, left, right);
    assert(castles_as_allowed(v, pawn_double_step(b, side, from)));
    match from.shift_rank(ahead) {
        None => {},
        Some(one) => {
            if b[one.index()] is None {
                lemma_arrival_castles(v, side, from, one, false);
                lemma_castles_join(
                    v,
                    pawn_arrival(side, from, one, false),
                    pawn_double_step(b, side, from),
                );
            }
        },
    }
    lemma_castles_join(v, pawn_forward(b, side, from), pawn_captures(b, side, target, from));
}

/// The moves of a knight do not castle.
proof fn lemma_knight_castles(v: PositionView, from: Coord)
    ensures
        castles_as_allowed(v, knight_moves(v.board, from)),
{
    let b = v.board;
    lemma_step_castles(v, from, 2, 1);
    lemma_step_castles(v, from, 1, 2);
    lemma_step_castles(v, from, -1, 2);
    lemma_step_castles(v, from, -2, 1);
    lemma_step_castles(v, from, -2, -1);
    lemma_step_castles(v, from, -1, -2);
    lemma_step_castles(v, from, 1, -2);
    lemma_step_castles(v, from, 2, -1);
    lemma_castles_join_eight(
        v,
        single_step(b, from, 2, 1),
        single_step(b, from, 1, 2),
        single_step(b, from, -1, 2),
        single_step(b, from, -2, 1),
        single_step(b, from, -2, -1),
        single_step(b, from, -1, -2),
        single_step(b, from, 1, -2),
        single_step(b, from, 2, -1),
    );
}

/// The castling moves of any piece are allowed.
proof fn lemma_piece_castles(v: PositionView, side: Side, kind: Piece, from: Coord)
    ensures
        castles_as_allowed(v, piece_moves(v, side, kind, from)),
{
    let b = v.board;
    match kind {
        Piece::P => {
            lemma_pawn_castles(v, side, from);
        },
        Piece::B => {
            lemma_bishop_castles(v, from);
        },
        Piece::N => {
            lemma_knight_castles(v, from);
        },
        Piece::R => {
            lemma_rook_castles(v, from);
        },
        Piece::Q => {
            lemma_rook_castles(v, from);
            lemma_bishop_castles(v, from);
            lemma_castles_join(v, rook_moves(b, from), bishop_moves(b, from));
        },
        Piece::K => {
            lemma_king_castles(v, side, from);
        },
    }
}

/// The castling moves from the squares below `n` are allowed.
proof fn lemma_moves_below_castle(v: PositionView, n: int)
    ensures
        castles_as_allowed(v, moves_below(v, n)),
    decreases n,
{
    if n > 0 {
        lemma_moves_below_castle(v, n - 1);
        match v.board[n - 1] {
            Some((side, kind)) => {
                lemma_piece_castles(v, side, kind, spec_coord_from_index(n - 1));
            },
            None => {},
        }
        lemma_castles_join(v, moves_below(v, n - 1), moves_from(v, n - 1));
    }
}

/// Castling is generated only where it is allowed: every castling move
/// among the candidate moves is of a variant whose right is held, whose
/// squares between king and rook are empty, and whose king is attacked
/// neither where it stands nor where it passes or arrives.
pub proof fn lemma_castling_only_as_allowed(v: PositionView)
    ensures
        castles_as_allowed(v, all_moves(v)),
{
    lemma_moves_below_castle(v, 64);
}

/// No castling through an attack: where one of the squares that the king of
/// a castling variant stands on, passes or reaches is attacked, no candidate
/// move castles that way, whatever the rights and however empty the squares
/// between king and rook.
pub proof fn lemma_no_castling_through_attack(v: PositionView, variant: CastlingSide, i: int)
    requires
        0 <= i < king_path(variant).len(),
        attacked(v.board, king_path(variant)[i], variant.spec_side()),
    ensures
        forall|j: int|
            0 <= j < all_moves(v).len() ==> (#[trigger] all_moves(v)[j]).castling != Some(variant),
{
    lemma_castling_only_as_allowed(v);
    assert(!can_castle(v, variant));
}

} // verus!
