use chess_core::bitboard::BitBoard;
use chess_core::board_navigator::{CastlingSide, Coord, Piece};
use chess_core::fen::from_fen;
use chess_core::pieces::{Pieces, Side};
use chess_core::position::{Castling, Position, StatelessPosition};

const START: &str = "rnbqkbnr/pppppppp/8/8/8/8/PPPPPPPP/RNBQKBNR w KQkq -";

fn consistent(position: &Position) -> bool {
    StatelessPosition::new(
        position.sides[0],
        position.sides[1],
        position.pieces[Pieces::PAWN],
        position.pieces[Pieces::BISHOP],
        position.pieces[Pieces::KNIGHT],
        position.pieces[Pieces::ROOK],
        position.pieces[Pieces::QUEEN],
        position.pieces[Pieces::KING],
    )
    .is_consistent()
}

#[test]
fn remove_piece() {
    let fen = "rnbqkbnr/pppppppp/8/8/8/8/PPPPPPPP/RNBQKBNR w KQkq -";
    let mut position = from_fen(fen);
    let coord = Coord('e', 2);
    let removed_index = coord.to_index();

    position.remove_piece(removed_index);
    assert_eq!(position.has_piece(removed_index), false);
}

#[test]
fn place_piece() {
    let fen = "rnbqkbnr/pppppppp/8/8/8/8/PPPPPPPP/RNBQKBNR w KQkq -";
    let mut position = from_fen(fen);
    let coord = Coord('e', 4);
    let placed_index = coord.to_index();
    let side = Side::White;
    let piece = Piece::Q;

    position.place_piece(placed_index, side, piece);
    assert_eq!(position.has_piece(placed_index), true);
}

#[test]
fn make_move_success() {
    let fen = "rnbqkbnr/pppppppp/8/8/8/8/PPPPPPPP/RNBQKBNR w KQkq -";
    let mut position = from_fen(fen);
    let from_coord = Coord('e', 2);
    let to_coord = Coord('e', 4);

    let result = position.make_move(&from_coord, &to_coord, &None);

    assert!(result.is_ok());
}

#[test]
fn make_move_fail() {
    let fen = "rnbqkbnr/pppppppp/8/8/8/8/PPPPPPPP/RNBQKBNR w KQkq -";
    let mut position = from_fen(fen);
    let from_coord = Coord('e', 3);
    let to_coord = Coord('e', 4);

    let result = position.make_move(&from_coord, &to_coord, &None);

    assert!(result.is_err());
    assert_eq!(result, Err(String::from("No Piece found at e3")));
}

#[test]
fn make_move_should_set_en_passant_target_as_white() {
    let fen = "rnbqkbnr/pppppppp/8/8/8/8/PPPPPPPP/RNBQKBNR w KQkq -";
    let mut position = from_fen(fen);
    let from_coord = Coord('e', 2);
    let to_coord = Coord('e', 4);

    let result = position.make_move(&from_coord, &to_coord, &None);

    assert!(result.is_ok());
    assert!(position.en_passant_target.is_some());
    let en_passant_target = position.en_passant_target.unwrap();
    assert_eq!(en_passant_target.0, 'e');
    assert_eq!(en_passant_target.1, 3);
}

#[test]
fn make_move_should_set_en_passant_target_as_black() {
    let fen = "rnbqkbnr/pppppppp/8/8/8/8/PPPPPPPP/RNBQKBNR w KQkq -";
    let mut position = from_fen(fen);
    let from_coord = Coord('e', 7);
    let to_coord = Coord('e', 5);

    let result = position.make_move(&from_coord, &to_coord, &None);

    assert!(result.is_ok());
    assert!(position.en_passant_target.is_some());
    let en_passant_target = position.en_passant_target.unwrap();
    assert_eq!(en_passant_target.0, 'e');
    assert_eq!(en_passant_target.1, 6);
}

#[test]
fn make_move_castling_wk() {
    let fen = "rnbqk2r/pppp1ppp/5n2/2b1p3/2B1P3/5N2/PPPP1PPP/RNBQK2R w KQkq -";
    let mut position = from_fen(fen);
    let from = Coord('e', 1);
    let to = Coord('g', 1);

    let result = position.make_move(&from, &to, &Some(CastlingSide::WK));

    assert!(result.is_ok());
    assert!(position.is_white(Coord('f', 1).to_index()));
    assert!(position.is_rook(Coord('f', 1).to_index()));
    assert_eq!(position.castling.K, false);
    assert_eq!(position.castling.Q, false);
}

#[test]
fn make_move_castling_bk() {
    let fen = "r3k2r/pppq1ppp/2np1n2/2b1p1B1/2B1P1b1/2NP1N2/PPPQ1PPP/2KR3R b kq -";
    let mut position = from_fen(fen);
    let from = Coord('e', 8);
    let to = Coord('g', 8);

    let result = position.make_move(&from, &to, &Some(CastlingSide::BK));

    assert!(result.is_ok());
    assert!(position.is_black(Coord('f', 8).to_index()));
    assert!(position.is_rook(Coord('f', 8).to_index()));
    assert_eq!(position.castling.k, false);
    assert_eq!(position.castling.q, false);
}

#[test]
fn make_move_castling_wq() {
    let fen = "r3k2r/pppq1ppp/2np1n2/2b1p1B1/2B1P1b1/2NP1N2/PPPQ1PPP/R3K2R w KQkq -";
    let mut position = from_fen(fen);
    let from = Coord('e', 1);
    let to = Coord('c', 1);

    let result = position.make_move(&from, &to, &Some(CastlingSide::WQ));

    assert!(result.is_ok());
    assert!(position.is_white(Coord('d', 1).to_index()));
    assert!(position.is_rook(Coord('d', 1).to_index()));
    assert_eq!(position.castling.Q, false);
    assert_eq!(position.castling.K, false);
}

#[test]
fn make_move_castling_bq() {
    let fen = "r3k2r/pppq1ppp/2np1n2/2b1p1B1/2B1P1b1/2NP1N2/PPPQ1PPP/2KR3R b kq -";
    let mut position = from_fen(fen);
    let from = Coord('e', 8);
    let to = Coord('c', 8);

    let result = position.make_move(&from, &to, &Some(CastlingSide::BQ));

    assert!(result.is_ok());
    assert!(position.is_black(Coord('d', 8).to_index()));
    assert!(position.is_rook(Coord('d', 8).to_index()));
    assert_eq!(position.castling.q, false);
    assert_eq!(position.castling.k, false);
}

#[test]
fn castling_moves_king_and_rook_and_keeps_the_other_side_its_rights() {
    let mut position = from_fen("rnbqk2r/pppp1ppp/5n2/2b1p3/2B1P3/5N2/PPPP1PPP/RNBQK2R w KQkq -");
    let result = position.make_move(&Coord('e', 1), &Coord('g', 1), &Some(CastlingSide::WK));
    assert_eq!(result, Ok(Coord('g', 1).to_index()));
    assert_eq!(position.occupant(Coord('g', 1).to_index()), Some((Side::White, Piece::K)));
    assert_eq!(position.occupant(Coord('f', 1).to_index()), Some((Side::White, Piece::R)));
    assert_eq!(position.occupant(Coord('e', 1).to_index()), None);
    assert_eq!(position.occupant(Coord('h', 1).to_index()), None);
    assert_eq!(position.castling, Castling { K: false, Q: false, k: true, q: true });
    assert_eq!(position.en_passant_target, None);
    assert_eq!(position.active_colour, Side::White);
    assert!(consistent(&position));
}

#[test]
fn a_move_from_an_empty_square_changes_nothing() {
    let mut position = from_fen(START);
    let before = position;
    let result = position.make_move(&Coord('e', 4), &Coord('e', 5), &Some(CastlingSide::WK));
    assert_eq!(result, Err(String::from("No Piece found at e4")));
    assert_eq!(position, before);
}

#[test]
fn a_move_that_is_no_double_step_clears_the_en_passant_target() {
    let mut position = from_fen(START);
    position.make_move(&Coord('e', 2), &Coord('e', 4), &None).unwrap();
    assert_eq!(position.en_passant_target, Some(Coord('e', 3)));
    position.make_move(&Coord('g', 8), &Coord('f', 6), &None).unwrap();
    assert_eq!(position.en_passant_target, None);
    position.make_move(&Coord('e', 4), &Coord('e', 5), &None).unwrap();
    assert_eq!(position.en_passant_target, None);
    // a piece that is no pawn sets no target by moving two ranks
    position.make_move(&Coord('f', 6), &Coord('g', 4), &None).unwrap();
    assert_eq!(position.en_passant_target, None);
}

#[test]
fn a_move_onto_a_piece_takes_it() {
    let mut position = from_fen(START);
    let result = position.make_move(&Coord('d', 1), &Coord('d', 7), &None);
    assert_eq!(result, Ok(Coord('d', 7).to_index()));
    assert_eq!(position.occupant(Coord('d', 7).to_index()), Some((Side::White, Piece::Q)));
    assert_eq!(position.occupant(Coord('d', 1).to_index()), None);
    assert!(!position.is_pawn(Coord('d', 7).to_index()));
    assert!(!position.is_black(Coord('d', 7).to_index()));
    assert_eq!(position.get_black_pawns().count(), 7);
    assert_eq!(position.get_white_queens().get_indicies(), vec![Coord('d', 7).to_index() as u32]);
    assert!(consistent(&position));
}

#[test]
fn queries_of_the_starting_position() {
    let position = from_fen(START);
    assert!(consistent(&position));
    assert_eq!(position.active_colour, Side::White);
    assert_eq!(position.castling, Castling { K: true, Q: true, k: true, q: true });
    assert_eq!(position.en_passant_target, None);
    assert_eq!(position.half_move_clock, 0);
    assert_eq!(position.full_moves, 1);
    assert_eq!(position.get_white_pawns(), BitBoard(0x00FF_0000_0000_0000));
    assert_eq!(position.get_black_pawns(), BitBoard(0x0000_0000_0000_FF00));
    assert_eq!(position.get_white_rooks(), BitBoard(0x8100_0000_0000_0000));
    assert_eq!(position.get_black_rooks(), BitBoard(0x0000_0000_0000_0081));
    assert_eq!(position.get_white_knights(), BitBoard(0x4200_0000_0000_0000));
    assert_eq!(position.get_black_knights(), BitBoard(0x0000_0000_0000_0042));
    assert_eq!(position.get_white_bishops(), BitBoard(0x2400_0000_0000_0000));
    assert_eq!(position.get_black_bishops(), BitBoard(0x0000_0000_0000_0024));
    assert_eq!(position.get_white_queens(), BitBoard(0x0800_0000_0000_0000));
    assert_eq!(position.get_black_queens(), BitBoard(0x0000_0000_0000_0008));
    assert_eq!(position.get_white_kings(), BitBoard(0x1000_0000_0000_0000));
    assert_eq!(position.get_black_kings(), BitBoard(0x0000_0000_0000_0010));
    assert_eq!(position.occupancy_of(Side::Black, Piece::K), position.get_black_kings());
    assert_eq!(position.occupancy_of(Side::White, Piece::N), position.get_white_knights());
    let e1 = Coord('e', 1).to_index();
    let e8 = Coord('e', 8).to_index();
    let e4 = Coord('e', 4).to_index();
    assert!(position.is_king(e1) && position.is_white(e1) && !position.is_black(e1));
    assert!(position.is_king(e8) && position.is_black(e8));
    assert!(position.is_queen(Coord('d', 8).to_index()));
    assert!(position.is_bishop(Coord('c', 1).to_index()));
    assert!(position.is_knight(Coord('b', 1).to_index()));
    assert!(position.is_rook(Coord('a', 1).to_index()));
    assert!(position.is_pawn(Coord('a', 2).to_index()));
    assert!(!position.has_piece(e4));
    assert_eq!(position.get_side(e1), Some(Side::White));
    assert_eq!(position.get_side(e8), Some(Side::Black));
    assert_eq!(position.get_side(e4), None);
    assert_eq!(position.get_piece(e1), Some(Piece::K));
    assert_eq!(position.get_piece(e4), None);
    assert_eq!(position.occupant(e8), Some((Side::Black, Piece::K)));
    assert!(!position.is_en_passant_target(e4));
}

#[test]
fn the_en_passant_target_is_found_by_its_index() {
    let position = from_fen("rnbqkbnr/pppp1ppp/8/4p3/4P3/8/PPPP1PPP/RNBQKBNR w KQkq e6");
    assert_eq!(position.en_passant_target, Some(Coord('e', 6)));
    assert!(position.is_en_passant_target(Coord('e', 6).to_index()));
    assert!(!position.is_en_passant_target(Coord('e', 3).to_index()));
    assert!(!position.is_en_passant_target(Coord('d', 6).to_index()));
    assert!(!position.is_en_passant_target(-1));
    assert!(!position.is_en_passant_target(64));
}

#[test]
fn boards_that_disagree_are_told() {
    let white = BitBoard(0b0011);
    let black = BitBoard(0b1100);
    let none = BitBoard(0);
    let good = StatelessPosition::new(white, black, BitBoard(0b0101), BitBoard(0b1010), none, none, none, none);
    assert!(good.is_consistent());
    // a square of both sides
    let bad = StatelessPosition::new(BitBoard(0b0111), black, BitBoard(0b0101), BitBoard(0b1010), none, none, none, none);
    assert!(!bad.is_consistent());
    // a square of two kinds
    let bad = StatelessPosition::new(white, black, BitBoard(0b0101), BitBoard(0b1011), none, none, none, none);
    assert!(!bad.is_consistent());
    // a square with a side and no kind
    let bad = StatelessPosition::new(white, black, BitBoard(0b0101), BitBoard(0b0010), none, none, none, none);
    assert!(!bad.is_consistent());
    // a square with a kind and no side
    let bad = StatelessPosition::new(white, black, BitBoard(0b0101), BitBoard(0b1010), none, none, none, BitBoard(0b1_0000));
    assert!(!bad.is_consistent());
    // two kinds that are far apart in the order of the kinds
    let bad = StatelessPosition::new(white, black, BitBoard(0b0101), BitBoard(0b1010), none, none, none, BitBoard(0b0001));
    assert!(!bad.is_consistent());
    assert!(StatelessPosition::new(none, none, none, none, none, none, none, none).is_consistent());
}

#[test]
fn a_position_is_made_of_its_parts() {
    let white = BitBoard(1 << 60);
    let black = BitBoard(1 << 4);
    let none = BitBoard(0);
    let kings = BitBoard(1 << 60 | 1 << 4);
    let placement = StatelessPosition::new(white, black, none, none, none, none, none, kings);
    assert!(placement.is_consistent());
    let rights = Castling { K: false, Q: true, k: false, q: false };
    let position = Position::new(placement, Side::Black, rights, Some(Coord('c', 3)), 7, 42);
    assert_eq!(position.sides, [white, black]);
    assert_eq!(position.pieces, [none, none, none, none, none, kings]);
    assert_eq!(position.active_colour, Side::Black);
    assert_eq!(position.castling, rights);
    assert_eq!(position.en_passant_target, Some(Coord('c', 3)));
    assert_eq!(position.half_move_clock, 7);
    assert_eq!(position.full_moves, 42);
    assert_eq!(position.occupant(60), Some((Side::White, Piece::K)));
    assert_eq!(position.occupant(4), Some((Side::Black, Piece::K)));
}

#[test]
fn placing_and_removing_keep_the_boards_in_agreement() {
    let mut position = from_fen(START);
    let e4 = Coord('e', 4).to_index();
    let e2 = Coord('e', 2).to_index();
    position.place_piece(e4, Side::Black, Piece::N);
    assert_eq!(position.occupant(e4), Some((Side::Black, Piece::N)));
    assert!(consistent(&position));
    // placing on an occupied square replaces what stands there
    position.place_piece(e2, Side::Black, Piece::Q);
    assert_eq!(position.occupant(e2), Some((Side::Black, Piece::Q)));
    assert!(!position.is_white(e2));
    assert!(!position.is_pawn(e2));
    assert!(consistent(&position));
    position.remove_piece(e2);
    assert_eq!(position.occupant(e2), None);
    // removing from an empty square changes nothing
    let before = position;
    position.remove_piece(e2);
    assert_eq!(position, before);
    assert!(consistent(&position));
}

#[test]
fn castling_rights_written_out() {
    assert_eq!(Castling { K: true, Q: true, k: true, q: true }.format(), "KQkq");
    assert_eq!(Castling { K: false, Q: false, k: false, q: false }.format(), "-");
    assert_eq!(Castling { K: true, Q: false, k: false, q: true }.format(), "Kq");
    assert_eq!(Castling { K: false, Q: true, k: true, q: false }.format(), "Qk");
}

#[test]
fn sides_and_kinds() {
    assert_eq!(Side::White.opposite(), Side::Black);
    assert_eq!(Side::Black.opposite(), Side::White);
    assert_eq!(Side::White.forward(), 1);
    assert_eq!(Side::Black.forward(), -1);
    assert_eq!(Side::of_direction(1), Side::White);
    assert_eq!(Side::of_direction(-1), Side::Black);
    assert_eq!(Side::of_direction(0), Side::Black);
    assert_eq!(Side::White.index(), 0);
    assert_eq!(Side::Black.index(), 1);
    assert_eq!(Piece::P.index(), Pieces::PAWN);
    assert_eq!(Piece::B.index(), Pieces::BISHOP);
    assert_eq!(Piece::N.index(), Pieces::KNIGHT);
    assert_eq!(Piece::R.index(), Pieces::ROOK);
    assert_eq!(Piece::Q.index(), Pieces::QUEEN);
    assert_eq!(Piece::K.index(), Pieces::KING);
    assert_eq!(Piece::P.format(), "Pawn");
    assert_eq!(Piece::N.format(), "Knight");
    assert_eq!(Piece::B.format(), "Bishop");
    assert_eq!(Piece::R.format(), "Rook");
    assert_eq!(Piece::Q.format(), "Queen");
    assert_eq!(Piece::K.format(), "King");
}
