use chess_core::board_navigator::{Coord, Piece};
use chess_core::fen::{
    build_stateless_position, fen_to_asci_board, from_fen, get_en_passant_target_coord, parse_fen, to_fen,
    FenSymbols,
};
use chess_core::pieces::{PieceAsci, Side};
use chess_core::position::Castling;

const START: &str = "rnbqkbnr/pppppppp/8/8/8/8/PPPPPPPP/RNBQKBNR w KQkq -";

#[test]
fn placement_written_out() {
    assert_eq!(to_fen(from_fen(START)), "rnbqkbnr/pppppppp/8/8/8/8/PPPPPPPP/RNBQKBNR/");
    assert_eq!(to_fen(from_fen("8/8/8/8/8/8/8/8 w - -")), "8/8/8/8/8/8/8/8/");
    assert_eq!(
        to_fen(from_fen("r3k2r/pppq1ppp/2np1n2/2b1p1B1/2B1P1b1/2NP1N2/PPPQ1PPP/2KR3R b kq -")),
        "r3k2r/pppq1ppp/2np1n2/2b1p1B1/2B1P1b1/2NP1N2/PPPQ1PPP/2KR3R/"
    );
    assert_eq!(to_fen(from_fen("7k/8/8/8/8/8/8/K7 w - -")), "7k/8/8/8/8/8/8/K7/");
}

#[test]
fn writing_and_reading_a_placement_give_the_position_back() {
    for fen in [
        START,
        "rn2k3/p1p2pp1/1p1p4/5r2/1bP1n3/1PN2N2/P2B2pP/R2QK2R w KQkq -",
        "8/8/8/3pP3/8/8/8/8 w - d6",
    ] {
        let position = from_fen(fen);
        let written = to_fen(position);
        let read = build_stateless_position(&written);
        assert_eq!(read.sides, position.sides);
        assert_eq!(read.pieces, position.pieces);
        assert!(read.is_consistent());
    }
}

#[test]
fn the_fields_of_a_position() {
    let position = from_fen("8/8/8/8/8/8/8/8 b Kq c3");
    assert_eq!(position.active_colour, Side::Black);
    assert_eq!(position.castling, Castling { K: true, Q: false, k: false, q: true });
    assert_eq!(position.en_passant_target, Some(Coord('c', 3)));
    assert_eq!(position.half_move_clock, 0);
    assert_eq!(position.full_moves, 1);
    let position = from_fen("8/8/8/8/8/8/8/8 w - -");
    assert_eq!(position.active_colour, Side::White);
    assert_eq!(position.castling, Castling { K: false, Q: false, k: false, q: false });
    assert_eq!(position.en_passant_target, None);
}

#[test]
fn a_text_that_is_no_position() {
    assert!(parse_fen(START).is_some());
    assert!(parse_fen("").is_none());
    assert!(parse_fen("8/8/8/8/8/8/8/8").is_none());
    assert!(parse_fen("8/8/8/8/8/8/8/8 w -").is_none());
    assert!(parse_fen("8/8/8/8/8/8/8/8 w - - 0 1").is_none());
    assert!(parse_fen("8/8/8/8/8/8/8/8 w - - ").is_none());
    assert!(parse_fen("8/8/8/8/8/8/8/8 x - -").is_none());
    assert!(parse_fen("8/8/8/8/8/8/8/8 W - -").is_none());
    assert!(parse_fen("8/8/8/8/8/8/8/8 wb - -").is_none());
    assert!(parse_fen("8/8/8/8/8/8/8/8  - -").is_none());
    assert!(parse_fen("8/8/8/8/8/8/8/8 w - e").is_none());
    assert!(parse_fen("8/8/8/8/8/8/8/8 w - ex").is_none());
    assert!(parse_fen("8/8/8/8/8/8/8/8 w - ").is_none());
    assert!(parse_fen("8/8/8/8/8/8/8/8 w  -").is_some());
    assert!(parse_fen(" w - -").is_some());
}

#[test]
fn en_passant_fields() {
    let chars = |s: &str| s.chars().collect::<Vec<char>>();
    assert_eq!(get_en_passant_target_coord(&chars("-")), Some(None));
    assert_eq!(get_en_passant_target_coord(&chars("e3")), Some(Some(Coord('e', 3))));
    assert_eq!(get_en_passant_target_coord(&chars("c6")), Some(Some(Coord('c', 6))));
    assert_eq!(get_en_passant_target_coord(&chars("z9x")), Some(Some(Coord('z', 9))));
    assert_eq!(get_en_passant_target_coord(&chars("-3")), Some(Some(Coord('-', 3))));
    assert_eq!(get_en_passant_target_coord(&chars("")), None);
    assert_eq!(get_en_passant_target_coord(&chars("e")), None);
    assert_eq!(get_en_passant_target_coord(&chars("ee")), None);
    assert_eq!(get_en_passant_target_coord(&chars("--")), None);
}

#[test]
fn placements_are_read_square_by_square() {
    let read = build_stateless_position("rnbqkbnr/pppppppp/8/8/8/8/PPPPPPPP/RNBQKBNR");
    assert_eq!(read.sides[0].0, 0xFFFF_0000_0000_0000);
    assert_eq!(read.sides[1].0, 0x0000_0000_0000_FFFF);
    assert_eq!(read.pieces[0].0, 0x00FF_0000_0000_FF00);
    assert_eq!(read.pieces[5].0, 0x1000_0000_0000_0010);
    // a character that is neither a piece, a digit 1 to 8 nor `/` leaves one square empty
    let read = build_stateless_position("x9K0");
    assert_eq!(read.pieces[5].0, 0b100);
    assert_eq!(read.sides[0].0, 0b100);
    // `/` leaves no square empty
    let read = build_stateless_position("//k");
    assert_eq!(read.sides[1].0, 0b1);
    // what lies beyond the last square is not set
    let read = build_stateless_position("8/8/8/8/8/8/8/7KQ8R");
    assert_eq!(read.sides[0].0, 1 << 63);
    assert_eq!(read.pieces[5].0, 1 << 63);
    assert_eq!(read.pieces[4].0, 0);
    assert_eq!(read.pieces[3].0, 0);
    assert!(read.is_consistent());
    let read = build_stateless_position("");
    assert_eq!(read.sides[0].0 | read.sides[1].0, 0);
}

#[test]
fn a_placement_drawn() {
    assert_eq!(fen_to_asci_board(String::from("")), "");
    assert_eq!(fen_to_asci_board(String::from("3")), "[ ][ ][ ]");
    assert_eq!(fen_to_asci_board(String::from("k7/8")), "[\u{265A}][ ][ ][ ][ ][ ][ ][ ]\n[ ][ ][ ][ ][ ][ ][ ][ ]");
    assert_eq!(fen_to_asci_board(String::from("Pp/x9")), "[\u{2659}][\u{265F}]\n");
    let drawn = fen_to_asci_board(String::from("rnbqkbnr/pppppppp/8/8/8/8/PPPPPPPP/RNBQKBNR"));
    let lines: Vec<&str> = drawn.split('\n').collect();
    assert_eq!(lines.len(), 8);
    assert_eq!(lines[0], "[\u{265C}][\u{265E}][\u{265D}][\u{265B}][\u{265A}][\u{265D}][\u{265E}][\u{265C}]");
    assert_eq!(lines[7], "[\u{2656}][\u{2658}][\u{2657}][\u{2655}][\u{2654}][\u{2657}][\u{2658}][\u{2656}]");
    assert_eq!(lines[3], "[ ][ ][ ][ ][ ][ ][ ][ ]");
}

#[test]
fn letters_and_glyphs_of_the_pieces() {
    assert_eq!((FenSymbols::pawn().white, FenSymbols::pawn().black), ('P', 'p'));
    assert_eq!((FenSymbols::bishop().white, FenSymbols::bishop().black), ('B', 'b'));
    assert_eq!((FenSymbols::knight().white, FenSymbols::knight().black), ('N', 'n'));
    assert_eq!((FenSymbols::rook().white, FenSymbols::rook().black), ('R', 'r'));
    assert_eq!((FenSymbols::queen().white, FenSymbols::queen().black), ('Q', 'q'));
    assert_eq!((FenSymbols::king().white, FenSymbols::king().black), ('K', 'k'));
    assert_eq!(FenSymbols::of(Piece::N), FenSymbols::knight());
    assert_eq!((PieceAsci::pawn().white, PieceAsci::pawn().black), (0x2659, 0x265F));
    assert_eq!((PieceAsci::bishop().white, PieceAsci::bishop().black), (0x2657, 0x265D));
    assert_eq!((PieceAsci::knight().white, PieceAsci::knight().black), (0x2658, 0x265E));
    assert_eq!((PieceAsci::rook().white, PieceAsci::rook().black), (0x2656, 0x265C));
    assert_eq!((PieceAsci::queen().white, PieceAsci::queen().black), (0x2655, 0x265B));
    assert_eq!((PieceAsci::king().white, PieceAsci::king().black), (0x2654, 0x265A));
}
