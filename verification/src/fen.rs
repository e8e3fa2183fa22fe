//! Positions written as text: the placement of the pieces rank by rank,
//! then the side to move, the castling rights and the en-passant target.

use crate::bitboard::BitBoard;
use crate::board_navigator::coord::Coord;
use crate::board_navigator::moves::Piece;
use crate::pieces::Side;
use crate::position::{occupant_on, square_wf, Board, Castling, Position, PositionView, StatelessPosition};
use crate::text::{digit_char, digit_to_char, push_char};
use crate::utils::{get_uni_char, spec_uni_char};
use vstd::prelude::*;

verus! {

/// The two letters of one piece kind: upper case for white, lower case for
/// black.
#[derive(Debug, Clone, Copy, PartialEq, Eq, Structural)]
pub struct FenPieceSymbol {
    pub white: char,
    pub black: char,
}

/// The letters of the piece kinds.
pub struct FenSymbols;

impl FenSymbols {
    pub fn pawn() -> (r: FenPieceSymbol)
        ensures
            r == (FenPieceSymbol { white: 'P', black: 'p' }),
    {
        FenPieceSymbol { white: 'P', black: 'p' }
    }

    pub fn bishop() -> (r: FenPieceSymbol)
        ensures
            r == (FenPieceSymbol { white: 'B', black: 'b' }),
    {
        FenPieceSymbol { white: 'B', black: 'b' }
    }

    pub fn knight() -> (r: FenPieceSymbol)
        ensures
            r == (FenPieceSymbol { white: 'N', black: 'n' }),
    {
        FenPieceSymbol { white: 'N', black: 'n' }
    }

    pub fn rook() -> (r: FenPieceSymbol)
        ensures
            r == (FenPieceSymbol { white: 'R', black: 'r' }),
    {
        FenPieceSymbol { white: 'R', black: 'r' }
    }

    pub fn queen() -> (r: FenPieceSymbol)
        ensures
            r == (FenPieceSymbol { white: 'Q', black: 'q' }),
    {
        FenPieceSymbol { white: 'Q', black: 'q' }
    }

    pub fn king() -> (r: FenPieceSymbol)
        ensures
            r == (FenPieceSymbol { white: 'K', black: 'k' }),
    {
        FenPieceSymbol { white: 'K', black: 'k' }
    }

    /// The letters of a kind.
    pub fn of(kind: Piece) -> (r: FenPieceSymbol)
        ensures
            r.white == piece_symbol(Side::White, kind),
            r.black == piece_symbol(Side::Black, kind),
    {
        match kind {
            Piece::P => FenSymbols::pawn(),
            Piece::B => FenSymbols::bishop(),
            Piece::N => FenSymbols::knight(),
            Piece::R => FenSymbols::rook(),
            Piece::Q => FenSymbols::queen(),
            Piece::K => FenSymbols::king(),
        }
    }
}

/// The letter of a piece.
pub open spec fn piece_symbol(side: Side, kind: Piece) -> char {
    match (side, kind) {
        (Side::White, Piece::P) => 'P',
        (Side::White, Piece::B) => 'B',
        (Side::White, Piece::N) => 'N',
        (Side::White, Piece::R) => 'R',
        (Side::White, Piece::Q) => 'Q',
        (Side::White, Piece::K) => 'K',
        (Side::Black, Piece::P) => 'p',
        (Side::Black, Piece::B) => 'b',
        (Side::Black, Piece::N) => 'n',
        (Side::Black, Piece::R) => 'r',
        (Side::Black, Piece::Q) => 'q',
        (Side::Black, Piece::K) => 'k',
    }
}

/// The piece of a letter, if it is the letter of one.
pub open spec fn symbol_piece(c: char) -> Option<(Side, Piece)> {
    if c == 'P' {
        Some((Side::White, Piece::P))
    } else if c == 'B' {
        Some((Side::White, Piece::B))
    } else if c == 'N' {
        Some((Side::White, Piece::N))
    } else if c == 'R' {
        Some((Side::White, Piece::R))
    } else if c == 'Q' {
        Some((Side::White, Piece::Q))
    } else if c == 'K' {
        Some((Side::White, Piece::K))
    } else if c == 'p' {
        Some((Side::Black, Piece::P))
    } else if c == 'b' {
        Some((Side::Black, Piece::B))
    } else if c == 'n' {
        Some((Side::Black, Piece::N))
    } else if c == 'r' {
        Some((Side::Black, Piece::R))
    } else if c == 'q' {
        Some((Side::Black, Piece::Q))
    } else if c == 'k' {
        Some((Side::Black, Piece::K))
    } else {
        None
    }
}

/// The piece of a letter, if it is the letter of one.
pub fn piece_of_symbol(c: char) -> (r: Option<(Side, Piece)>)
    ensures
        r == symbol_piece(c),
{
    match c {
        'P' => Some((Side::White, Piece::P)),
        'B' => Some((Side::White, Piece::B)),
        'N' => Some((Side::White, Piece::N)),
        'R' => Some((Side::White, Piece::R)),
        'Q' => Some((Side::White, Piece::Q)),
        'K' => Some((Side::White, Piece::K)),
        'p' => Some((Side::Black, Piece::P)),
        'b' => Some((Side::Black, Piece::B)),
        'n' => Some((Side::Black, Piece::N)),
        'r' => Some((Side::Black, Piece::R)),
        'q' => Some((Side::Black, Piece::Q)),
        'k' => Some((Side::Black, Piece::K)),
        _ => None,
    }
}

/// The count that a digit `1` to `8` stands for, and none for any other
/// character.
pub open spec fn run_length(c: char) -> Option<int> {
    if '1' <= c <= '8' {
        Some(c as int - '0' as int)
    } else {
        None
    }
}

/// The count that a digit `1` to `8` stands for.
pub fn run_of_digit(c: char) -> (r: Option<u8>)
    ensures
        match r {
            Some(n) => run_length(c) == Some(n as int),
            None => run_length(c) is None,
        },
{
    match c {
        '1' => Some(1),
        '2' => Some(2),
        '3' => Some(3),
        '4' => Some(4),
        '5' => Some(5),
        '6' => Some(6),
        '7' => Some(7),
        '8' => Some(8),
        _ => None,
    }
}

/// How many squares a character of a placement moves on: a digit `1` to `8`
/// as many as it says, `/` none, and every other character one.
pub open spec fn advance(c: char) -> int {
    if c == '/' {
        0
    } else {
        match run_length(c) {
            Some(n) => n,
            None => 1,
        }
    }
}

/// The square that the `n`-th character of a placement speaks of: as many
/// squares on as the characters before it move on.
pub open spec fn square_before(chars: Seq<char>, n: int) -> int
    decreases n,
{
    if n <= 0 {
        0
    } else {
        square_before(chars, n - 1) + advance(chars[n - 1])
    }
}

/// The board after the first `n` characters of a placement: each letter of
/// a piece sets that piece on the square it speaks of, if that is a square of
/// the board.
pub open spec fn placement(chars: Seq<char>, n: int) -> Board
    decreases n,
{
    if n <= 0 {
        Seq::new(64, |i: int| None)
    } else {
        let before = placement(chars, n - 1);
        let square = square_before(chars, n - 1);
        match symbol_piece(chars[n - 1]) {
            Some(piece) => if 0 <= square < 64 {
                before.update(square, Some(piece))
            } else {
                before
            },
            None => before,
        }
    }
}

/// The digit for a run of empty squares, and nothing for no run.
pub open spec fn run_text(blanks: int) -> Seq<char> {
    if blanks > 0 {
        seq![digit_char(blanks)]
    } else {
        Seq::empty()
    }
}

/// The text and the run of empty squares not yet written after the first
/// `n` squares of a board: a piece is written as its letter, after the run
/// before it; at the end of a rank the run is written, then `/`.
pub open spec fn written(board: Board, n: int) -> (Seq<char>, int)
    decreases n,
{
    if n <= 0 {
        (Seq::empty(), 0)
    } else {
        let (text, blanks) = written(board, n - 1);
        let (text, blanks) = match board[n - 1] {
            Some((side, kind)) => (text + run_text(blanks) + seq![piece_symbol(side, kind)], 0),
            None => (text, blanks + 1),
        };
        if (n - 1) % 8 == 7 {
            (text + run_text(blanks) + seq!['/'], 0)
        } else {
            (text, blanks)
        }
    }
}

/// The placement of a board as text: its eight ranks from the top, each
/// followed by `/`.
pub open spec fn placement_text(board: Board) -> Seq<char> {
    written(board, 64).0
}

/// The run of empty squares is never longer than a rank.
proof fn lemma_written_blanks(board: Board, n: int)
    requires
        0 <= n <= 64,
    ensures
        0 <= written(board, n).1 <= n % 8,
    decreases n,
{
    if n > 0 {
        lemma_written_blanks(board, n - 1);
    }
}

/// The placement of the position as text.
pub fn to_fen(position: Position) -> (fen: String)
    requires
        position.wf(),
    ensures
        fen@ == placement_text(position@.board),
{
    let mut fen = String::new();
    let mut blank_count: u32 = 0;
    let mut n: i32 = 0;
    while n < 64
        invariant
            0 <= n <= 64,
            position.wf(),
            (fen@, blank_count as int) == written(position@.board, n as int),
        decreases 64 - n,
    {
        proof {
            lemma_written_blanks(position@.board, n as int);
        }
        match position.occupant(n) {
            Some((side, kind)) => {
                if blank_count > 0 {
                    push_char(&mut fen, digit_to_char(blank_count));
                    blank_count = 0;
                }
                let symbols = FenSymbols::of(kind);
                push_char(
                    &mut fen,
                    match side {
                        Side::White => symbols.white,
                        Side::Black => symbols.black,
                    },
                );
            },
            None => {
                blank_count = blank_count + 1;
            },
        }
        if n % 8 == 7 {
            if blank_count > 0 {
                push_char(&mut fen, digit_to_char(blank_count));
            }
            push_char(&mut fen, '/');
            blank_count = 0;
        }
        n = n + 1;
    }
    fen
}

/// The characters of a text.
pub fn chars_of(s: &str) -> (v: Vec<char>)
    ensures
        v@ == s@,
{
    let n = s.unicode_len();
    let mut v: Vec<char> = Vec::new();
    let mut i: usize = 0;
    while i < n
        invariant
            i <= n,
            n == s@.len(),
            v@ == s@.subrange(0, i as int),
        decreases n - i,
    {
        v.push(s.get_char(i));
        proof {
            assert(v@ =~= s@.subrange(0, i + 1));
        }
        i = i + 1;
    }
    proof {
        assert(v@ =~= s@);
    }
    v
}

/// The boards of a placement given as text.
///
/// Each letter of a piece sets that piece on the next square; a digit `1`
/// to `8` leaves as many squares empty; `/` does nothing, and any other
/// character leaves one square empty. What the text says beyond the 64th
/// square is not set.
pub fn build_stateless_position(fen: &str) -> (r: StatelessPosition)
    ensures
        r.wf(),
        forall|i: int|
            0 <= i < 64 ==> occupant_on(r.sides, r.pieces, i) == #[trigger] placement(
                fen@,
                fen@.len() as int,
            )[i],
{
    let chars = chars_of(fen);
    place_all(&chars)
}

/// The boards of a placement given by its characters.
fn place_all(chars: &Vec<char>) -> (r: StatelessPosition)
    ensures
        r.wf(),
        forall|i: int|
            0 <= i < 64 ==> occupant_on(r.sides, r.pieces, i) == #[trigger] placement(
                chars@,
                chars@.len() as int,
            )[i],
{
    let empty = StatelessPosition::new(
        BitBoard(0),
        BitBoard(0),
        BitBoard(0),
        BitBoard(0),
        BitBoard(0),
        BitBoard(0),
        BitBoard(0),
        BitBoard(0),
    );
    proof {
        crate::bitboard::lemma_zero_iff_no_bit(0);
        assert forall|i: int| 0 <= i < 64 implies #[trigger] square_wf(
            empty.sides,
            empty.pieces,
            i,
        ) by {
            assert(empty.sides[0] == BitBoard(0));
            assert(empty.sides[1] == BitBoard(0));
            assert(empty.pieces[0] == BitBoard(0));
            assert(empty.pieces[1] == BitBoard(0));
            assert(empty.pieces[2] == BitBoard(0));
            assert(empty.pieces[3] == BitBoard(0));
            assert(empty.pieces[4] == BitBoard(0));
            assert(empty.pieces[5] == BitBoard(0));
        }
    }
    let mut position = Position::new(
        empty,
        Side::White,
        Castling { K: false, Q: false, k: false, q: false },
        None,
        0,
        1,
    );
    proof {
        assert(position@.board =~= placement(chars@, 0));
    }
    let mut count: u8 = 0;
    let mut i: usize = 0;
    while i < chars.len()
        invariant
            i <= chars.len(),
            position.wf(),
            count <= 64,
            count as int == if square_before(chars@, i as int) < 64 {
                square_before(chars@, i as int)
            } else {
                64
            },
            square_before(chars@, i as int) >= 0,
            position@.board == placement(chars@, i as int),
        decreases chars.len() - i,
    {
        let c = chars[i];
        let mut increment: u8 = 1;
        match piece_of_symbol(c) {
            Some((side, kind)) => {
                if count < 64 {
                    position.place_piece(count as i32, side, kind);
                }
            },
            None => {
                match run_of_digit(c) {
                    Some(run) => {
                        increment = run;
                    },
                    None => {
                        if c == '/' {
                            increment = 0;
                        }
                    },
                }
            },
        }
        count = if count + increment > 64 {
            64
        } else {
            count + increment
        };
        i = i + 1;
    }
    let r = StatelessPosition { sides: position.sides, pieces: position.pieces };
    proof {
        assert forall|j: int| 0 <= j < 64 implies occupant_on(r.sides, r.pieces, j)
            == #[trigger] placement(chars@, chars@.len() as int)[j] by {
            assert(position@.board[j] == occupant_on(position.sides, position.pieces, j));
        }
    }
    r
}


/// Every board of a placement has 64 squares.
pub proof fn lemma_placement_len(chars: Seq<char>, n: int)
    ensures
        placement(chars, n).len() == 64,
    decreases n,
{
    if n > 0 {
        lemma_placement_len(chars, n - 1);
    }
}

/// The place of the first space at or after `from`, or the length of the
/// text where there is none.
pub open spec fn find_space(s: Seq<char>, from: int) -> int
    decreases s.len() - from,
{
    if from < 0 || from >= s.len() {
        s.len() as int
    } else if s[from] == ' ' {
        from
    } else {
        find_space(s, from + 1)
    }
}

/// The four fields of a position written as text, where it has exactly
/// four, with one space between each two.
pub open spec fn fen_fields(s: Seq<char>) -> Option<(Seq<char>, Seq<char>, Seq<char>, Seq<char>)> {
    let a = find_space(s, 0);
    let b = find_space(s, a + 1);
    let c = find_space(s, b + 1);
    let n = s.len() as int;
    if a < n && b < n && c < n && find_space(s, c + 1) == n {
        Some((s.subrange(0, a), s.subrange(a + 1, b), s.subrange(b + 1, c), s.subrange(c + 1, n)))
    } else {
        None
    }
}

/// The side that the second field names: `w` or `b`.
pub open spec fn side_field(f: Seq<char>) -> Option<Side> {
    if f == seq!['w'] {
        Some(Side::White)
    } else if f == seq!['b'] {
        Some(Side::Black)
    } else {
        None
    }
}

/// The castling rights that the third field names: each right whose letter
/// the field holds.
pub open spec fn castling_field(f: Seq<char>) -> Castling {
    Castling { K: f.contains('K'), Q: f.contains('Q'), k: f.contains('k'), q: f.contains('q') }
}

/// The value of a decimal digit.
pub open spec fn digit_value(c: char) -> Option<int> {
    if '0' <= c <= '9' {
        Some(c as int - '0' as int)
    } else {
        None
    }
}

/// The en-passant target that the fourth field names: none for `-`, and
/// else the square of its first character as the file and its second, a
/// digit, as the rank. A field of any other form names nothing.
pub open spec fn target_field(f: Seq<char>) -> Option<Option<Coord>> {
    if f == seq!['-'] {
        Some(None)
    } else if f.len() >= 2 && digit_value(f[1]) is Some {
        Some(Some(Coord(f[0], digit_value(f[1]).unwrap() as u8)))
    } else {
        None
    }
}

/// Whether a text is a position: four fields, of which the second names a
/// side and the fourth an en-passant target or none.
pub open spec fn well_formed_fen(s: Seq<char>) -> bool {
    &&& fen_fields(s) matches Some((placing, side, castling, target))
    &&& side_field(side) is Some
    &&& target_field(target) is Some
}

/// The position that a text stands for: the placement of its first field,
/// the side, rights and target of the others, no half moves and the first
/// full move.
pub open spec fn fen_position(s: Seq<char>) -> PositionView
    recommends
        well_formed_fen(s),
{
    let (placing, side, castling, target) = fen_fields(s).unwrap();
    PositionView {
        board: placement(placing, placing.len() as int),
        active_colour: side_field(side).unwrap(),
        castling: castling_field(castling),
        en_passant_target: target_field(target).unwrap(),
        half_move_clock: 0,
        full_moves: 1,
    }
}

/// The place of the first space at or after `from`.
fn first_space(chars: &Vec<char>, from: usize) -> (r: usize)
    ensures
        r == find_space(chars@, from as int),
        from <= r || r == chars@.len(),
        r <= chars@.len(),
{
    let mut i = from;
    while i < chars.len()
        invariant
            from <= i,
            find_space(chars@, from as int) == find_space(chars@, i as int),
        decreases chars.len() - i,
    {
        if chars[i] == ' ' {
            return i;
        }
        i = i + 1;
    }
    chars.len()
}

/// The characters from `from` up to `to`.
fn part_of(chars: &Vec<char>, from: usize, to: usize) -> (v: Vec<char>)
    requires
        from <= to <= chars@.len(),
    ensures
        v@ == chars@.subrange(from as int, to as int),
{
    let mut v: Vec<char> = Vec::new();
    let mut i = from;
    while i < to
        invariant
            from <= i <= to,
            to <= chars@.len(),
            v@ == chars@.subrange(from as int, i as int),
        decreases to - i,
    {
        v.push(chars[i]);
        proof {
            assert(v@ =~= chars@.subrange(from as int, i + 1));
        }
        i = i + 1;
    }
    v
}

/// Whether the characters hold `c`.
fn holds(chars: &Vec<char>, c: char) -> (b: bool)
    ensures
        b == chars@.contains(c),
{
    let mut i: usize = 0;
    while i < chars.len()
        invariant
            i <= chars.len(),
            forall|j: int| 0 <= j < i ==> chars@[j] != c,
        decreases chars.len() - i,
    {
        if chars[i] == c {
            assert(chars@[i as int] == c);
            return true;
        }
        i = i + 1;
    }
    false
}

/// The value of a decimal digit.
fn value_of_digit(c: char) -> (r: Option<u8>)
    ensures
        match r {
            Some(n) => digit_value(c) == Some(n as int),
            None => digit_value(c) is None,
        },
{
    match c {
        '0' => Some(0),
        '1' => Some(1),
        '2' => Some(2),
        '3' => Some(3),
        '4' => Some(4),
        '5' => Some(5),
        '6' => Some(6),
        '7' => Some(7),
        '8' => Some(8),
        '9' => Some(9),
        _ => None,
    }
}

/// The en-passant target that a field names, or nothing where the field
/// has not the form of one.
pub fn get_en_passant_target_coord(en_passant_target: &Vec<char>) -> (r: Option<Option<Coord>>)
    ensures
        r == target_field(en_passant_target@),
{
    let f = en_passant_target;
    if f.len() == 1 && f[0] == '-' {
        proof {
            assert(f@ =~= seq!['-']);
        }
        return Some(None);
    }
    proof {
        if f@ == seq!['-'] {
            assert(f@.len() == 1 && f@[0] == '-');
        }
    }
    if f.len() < 2 {
        return None;
    }
    match value_of_digit(f[1]) {
        Some(rank) => Some(Some(Coord(f[0], rank))),
        None => None,
    }
}

/// The position of four fields, or nothing where the second names no side
/// or the fourth has not the form of an en-passant target.
pub fn build_position(
    fen: &Vec<char>,
    active_colour: &Vec<char>,
    castling: &Vec<char>,
    en_passant_target: &Vec<char>,
    half_move_clock: usize,
    full_moves: usize,
) -> (r: Option<Position>)
    ensures
        match r {
            Some(p) => {
                &&& p.wf()
                &&& side_field(active_colour@) is Some
                &&& target_field(en_passant_target@) is Some
                &&& p@ == (PositionView {
                    board: placement(fen@, fen@.len() as int),
                    active_colour: side_field(active_colour@).unwrap(),
                    castling: castling_field(castling@),
                    en_passant_target: target_field(en_passant_target@).unwrap(),
                    half_move_clock,
                    full_moves,
                })
            },
            None => side_field(active_colour@) is None || target_field(en_passant_target@) is None,
        },
{
    let stateless_position = place_all(fen);
    let rights = Castling {
        K: holds(castling, 'K'),
        Q: holds(castling, 'Q'),
        k: holds(castling, 'k'),
        q: holds(castling, 'q'),
    };
    let side = if active_colour.len() == 1 && active_colour[0] == 'w' {
        proof {
            assert(active_colour@ =~= seq!['w']);
        }
        Side::White
    } else if active_colour.len() == 1 && active_colour[0] == 'b' {
        proof {
            assert(active_colour@ =~= seq!['b']);
        }
        Side::Black
    } else {
        proof {
            if active_colour@ == seq!['w'] {
                assert(active_colour@.len() == 1 && active_colour@[0] == 'w');
            }
            if active_colour@ == seq!['b'] {
                assert(active_colour@.len() == 1 && active_colour@[0] == 'b');
            }
        }
        return None;
    };
    let target = match get_en_passant_target_coord(en_passant_target) {
        Some(target) => target,
        None => {
            return None;
        },
    };
    let p = Position::new(stateless_position, side, rights, target, half_move_clock, full_moves);
    proof {
        lemma_placement_len(fen@, fen@.len() as int);
        assert(p@.board =~= placement(fen@, fen@.len() as int));
    }
    Some(p)
}

/// The position that a text stands for, or nothing where the text is not
/// a position.
pub fn parse_fen(fen: &str) -> (r: Option<Position>)
    ensures
        match r {
            Some(p) => well_formed_fen(fen@) && p.wf() && p@ == fen_position(fen@),
            None => !well_formed_fen(fen@),
        },
{
    let chars = chars_of(fen);
    let n = chars.len();
    let a = first_space(&chars, 0);
    if a >= n {
        return None;
    }
    let b = first_space(&chars, a + 1);
    if b >= n {
        return None;
    }
    let c = first_space(&chars, b + 1);
    if c >= n {
        return None;
    }
    if first_space(&chars, c + 1) != n {
        return None;
    }
    let placing = part_of(&chars, 0, a);
    let side = part_of(&chars, a + 1, b);
    let castling = part_of(&chars, b + 1, c);
    let target = part_of(&chars, c + 1, n);
    build_position(&placing, &side, &castling, &target, 0, 1)
}

/// The position that a text stands for.
pub fn from_fen(fen: &str) -> (p: Position)
    requires
        well_formed_fen(fen@),
    ensures
        p.wf(),
        p@ == fen_position(fen@),
{
    match parse_fen(fen) {
        Some(p) => p,
        None => vstd::pervasive::unreached(),
    }
}

/// The code point of the glyph of a piece.
pub open spec fn glyph_code(side: Side, kind: Piece) -> u32 {
    match (side, kind) {
        (Side::White, Piece::P) => 0x2659,
        (Side::White, Piece::B) => 0x2657,
        (Side::White, Piece::N) => 0x2658,
        (Side::White, Piece::R) => 0x2656,
        (Side::White, Piece::Q) => 0x2655,
        (Side::White, Piece::K) => 0x2654,
        (Side::Black, Piece::P) => 0x265F,
        (Side::Black, Piece::B) => 0x265D,
        (Side::Black, Piece::N) => 0x265E,
        (Side::Black, Piece::R) => 0x265C,
        (Side::Black, Piece::Q) => 0x265B,
        (Side::Black, Piece::K) => 0x265A,
    }
}

/// `n` empty cells of a drawn board.
pub open spec fn blank_cells(n: int) -> Seq<char>
    decreases n,
{
    if n <= 0 {
        Seq::empty()
    } else {
        blank_cells(n - 1) + "[ ]"@
    }
}

/// What one character of a placement draws: a line break for `/`, the
/// glyph of a piece in brackets for its letter, as many empty cells as a
/// digit `1` to `8` says, and nothing for any other character.
pub open spec fn cell_text(c: char) -> Seq<char> {
    if c == '/' {
        seq!['\n']
    } else {
        match symbol_piece(c) {
            Some((side, kind)) => seq!['[', spec_uni_char(glyph_code(side, kind)), ']'],
            None => match run_length(c) {
                Some(n) => blank_cells(n),
                None => Seq::empty(),
            },
        }
    }
}

/// What the first `n` characters of a placement draw.
pub open spec fn drawn_text(chars: Seq<char>, n: int) -> Seq<char>
    decreases n,
{
    if n <= 0 {
        Seq::empty()
    } else {
        drawn_text(chars, n - 1) + cell_text(chars[n - 1])
    }
}

/// The code point of the glyph of a piece.
fn code_of_glyph(side: Side, kind: Piece) -> (r: u32)
    ensures
        r == glyph_code(side, kind),
{
    let symbol = match kind {
        Piece::P => crate::pieces::PieceAsci::pawn(),
        Piece::B => crate::pieces::PieceAsci::bishop(),
        Piece::N => crate::pieces::PieceAsci::knight(),
        Piece::R => crate::pieces::PieceAsci::rook(),
        Piece::Q => crate::pieces::PieceAsci::queen(),
        Piece::K => crate::pieces::PieceAsci::king(),
    };
    match side {
        Side::White => symbol.white,
        Side::Black => symbol.black,
    }
}

/// The board of a placement drawn with one cell for each square and one
/// line for each rank.
pub fn fen_to_asci_board(fen: String) -> (output: String)
    ensures
        output@ == drawn_text(fen@, fen@.len() as int),
{
    let chars = chars_of(fen.as_str());
    let mut output = String::new();
    let mut i: usize = 0;
    while i < chars.len()
        invariant
            i <= chars.len(),
            chars@ == fen@,
            output@ == drawn_text(chars@, i as int),
        decreases chars.len() - i,
    {
        let c = chars[i];
        let ghost before = output@;
        if c == '/' {
            push_char(&mut output, '\n');
        } else {
            match piece_of_symbol(c) {
                Some((side, kind)) => {
                    push_char(&mut output, '[');
                    push_char(&mut output, get_uni_char(code_of_glyph(side, kind)));
                    push_char(&mut output, ']');
                },
                None => {
                    match run_of_digit(c) {
                        Some(run) => {
                            let mut j: u8 = 0;
                            while j < run
                                invariant
                                    j <= run,
                                    output@ == before + blank_cells(j as int),
                                decreases run - j,
                            {
                                output.append("[ ]");
                                proof {
                                    assert(output@ =~= before + blank_cells(j + 1));
                                }
                                j = j + 1;
                            }
                        },
                        None => {},
                    }
                },
            }
        }
        proof {
            assert(output@ =~= before + cell_text(c));
        }
        i = i + 1;
    }
    output
}

} // verus!
