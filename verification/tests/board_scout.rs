use chess_core::board_navigator::board_scout::{has_attacking_piece, is_opposing_piece, is_piece_of_type};
use chess_core::board_navigator::{is_attacked, Coord, Piece};
use chess_core::fen::{fen_to_asci_board, from_fen};
use chess_core::pieces::Side;

fn assert_attacked(expected: bool, actual: bool, coord: &Coord, fen: &str) {
    assert_eq!(
        expected,
        actual,
        "Testing {} is attacked on:\n\n{}\n\nexpected {} but got {}",
        coord.format(),
        fen_to_asci_board(String::from(fen.split_once(" ").unwrap().0)),
        expected,
        actual
    );
}

#[test]
fn is_attacked_by_pawn() {
    let fen = "rn2k3/p1p2pp1/1p1p4/5r2/1bP1n3/1PN2N2/P2B2pP/R2QK2R w KQkq -";
    let position = from_fen(fen);
    let coord = Coord('f', 1);

    let expected = true;
    let actual = is_attacked(&position, &coord, 1);

    assert_eq!(expected, actual, "expected {} but got {}", expected, actual);
}

#[test]
fn is_not_attacked_by_pawn_out_of_range() {
    let fen = "rn2k3/p1p2pp1/1p1p4/8/1bP1nr2/1PN2NPp/P6P/R1BQK2R w KQkq -";
    let position = from_fen(fen);
    let coord = Coord('f', 1);

    let expected = false;
    let actual = is_attacked(&position, &coord, 1);

    assert_attacked(expected, actual, &coord, fen);
}

#[test]
fn is_attacked_by_ranged_diagonal_ne() {
    let fen = "rn1qkbnr/p1pp1ppp/1p6/4p3/2b1P3/5N2/PPPP1PPP/RNBQK2R w KQkq -";
    let position = from_fen(fen);
    let coord = Coord('f', 1);

    let expected = true;
    let actual = is_attacked(&position, &coord, 1);

    assert_attacked(expected, actual, &coord, fen);
}

#[test]
fn is_attacked_by_ranged_straight_n() {
    let fen = "rn2k3/p1pp1pp1/1p6/4Nr1p/1bP1n3/2P5/PP4PP/RNBQK2R w KQkq -";
    let position = from_fen(fen);
    let coord = Coord('f', 1);

    let expected = true;
    let actual = is_attacked(&position, &coord, 1);

    assert_attacked(expected, actual, &coord, fen);
}

#[test]
fn is_not_attacked_by_ranged_straight_n_due_to_block() {
    let fen = "rn2k3/p1p2pp1/1p1p4/5r1p/1bP1n3/2P2N2/PP4PP/RNBQK2R w KQkq -";
    let position = from_fen(fen);
    let coord = Coord('f', 1);

    let expected = false;
    let actual = is_attacked(&position, &coord, 1);

    assert_attacked(expected, actual, &coord, fen);
}

#[test]
fn every_line_is_looked_along_from_the_square_itself() {
    // a black rook on a4 attacks d4 along the rank although the lines looked
    // along before it run out at the edge of the board
    let position = from_fen("8/8/8/8/r2K4/8/8/8 w - -");
    assert!(is_attacked(&position, &Coord('d', 4), 1));
    assert!(is_attacked(&position, &Coord('a', 1), 1));
    assert!(!is_attacked(&position, &Coord('b', 3), 1));
    // the king shields what lies behind it
    assert!(!is_attacked(&position, &Coord('e', 4), 1));
}

#[test]
fn attacked_by_a_king_next_to_the_square() {
    let position = from_fen("8/8/8/8/3k4/8/8/8 w - -");
    for (c, expected) in [
        (Coord('c', 3), true),
        (Coord('d', 3), true),
        (Coord('e', 3), true),
        (Coord('c', 4), true),
        (Coord('e', 4), true),
        (Coord('c', 5), true),
        (Coord('d', 5), true),
        (Coord('e', 5), true),
        (Coord('d', 6), false),
        (Coord('f', 4), false),
        (Coord('b', 2), false),
    ] {
        assert_eq!(is_attacked(&position, &c, 1), expected, "{}", c.format());
    }
    // the king is black: it attacks nothing that black moves onto
    assert!(!is_attacked(&position, &Coord('c', 3), -1));
}

#[test]
fn pawns_attack_diagonally_ahead_only() {
    // a black pawn on e5 attacks d4 and f4
    let position = from_fen("8/8/8/4p3/8/8/8/8 w - -");
    assert!(is_attacked(&position, &Coord('d', 4), 1));
    assert!(is_attacked(&position, &Coord('f', 4), 1));
    assert!(!is_attacked(&position, &Coord('e', 4), 1));
    assert!(!is_attacked(&position, &Coord('d', 6), 1));
    assert!(!is_attacked(&position, &Coord('f', 6), 1));
    // a white pawn on e4 attacks d5 and f5
    let position = from_fen("8/8/8/8/4P3/8/8/8 b - -");
    assert!(is_attacked(&position, &Coord('d', 5), -1));
    assert!(is_attacked(&position, &Coord('f', 5), -1));
    assert!(!is_attacked(&position, &Coord('d', 3), -1));
    assert!(!is_attacked(&position, &Coord('e', 5), -1));
}

#[test]
fn queens_attack_along_every_line_and_knights_are_not_looked_for() {
    let position = from_fen("8/8/8/8/3q4/8/8/8 w - -");
    assert!(is_attacked(&position, &Coord('d', 8), 1));
    assert!(is_attacked(&position, &Coord('h', 4), 1));
    assert!(is_attacked(&position, &Coord('a', 1), 1));
    assert!(is_attacked(&position, &Coord('g', 7), 1));
    assert!(is_attacked(&position, &Coord('a', 7), 1));
    assert!(!is_attacked(&position, &Coord('e', 6), 1));
    let position = from_fen("8/8/8/8/3n4/8/8/8 w - -");
    assert!(!is_attacked(&position, &Coord('e', 2), 1));
    assert!(!is_attacked(&position, &Coord('f', 5), 1));
}

#[test]
fn rooks_do_not_attack_along_diagonals_nor_bishops_along_files() {
    let position = from_fen("8/8/8/8/3r4/8/8/8 w - -");
    assert!(!is_attacked(&position, &Coord('e', 5), 1));
    assert!(!is_attacked(&position, &Coord('f', 6), 1));
    assert!(is_attacked(&position, &Coord('d', 1), 1));
    let position = from_fen("8/8/8/8/3b4/8/8/8 w - -");
    assert!(!is_attacked(&position, &Coord('d', 1), 1));
    assert!(is_attacked(&position, &Coord('g', 1), 1));
}

#[test]
fn the_parts_of_the_scout() {
    let position = from_fen("rnbqkbnr/pppppppp/8/8/8/8/PPPPPPPP/RNBQKBNR w KQkq -");
    let a8 = Coord('a', 8).to_index();
    let a1 = Coord('a', 1).to_index();
    let e4 = Coord('e', 4).to_index();
    assert!(is_piece_of_type(&position, a8, &[Piece::R, Piece::Q]));
    assert!(!is_piece_of_type(&position, a8, &[Piece::B, Piece::Q]));
    assert!(!is_piece_of_type(&position, a8, &[]));
    assert!(!is_piece_of_type(&position, e4, &[Piece::R, Piece::Q]));
    assert!(is_opposing_piece(&position, a8, Side::White));
    assert!(!is_opposing_piece(&position, a8, Side::Black));
    assert!(is_opposing_piece(&position, a1, Side::Black));
    assert!(!is_opposing_piece(&position, e4, Side::White));
    assert!(has_attacking_piece(&position, a8, Side::White, &[Piece::R]));
    assert!(!has_attacking_piece(&position, a8, Side::Black, &[Piece::R]));
    assert!(!has_attacking_piece(&position, a1, Side::White, &[Piece::R]));
    assert!(!has_attacking_piece(&position, e4, Side::White, &[Piece::R]));
}
