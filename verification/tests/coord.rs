use chess_core::board_navigator::coord::i32_as_file;
use chess_core::board_navigator::Coord;
use chess_core::utils::{coord_from_index, file_of_index, get_uni_char, is_rank, rank_of_index};

#[test]
fn board_navigator_to_index() {
    assert_eq!(Coord('e', 4).to_index(), 36);
}

#[test]
fn coord_to_index() {
    assert_eq!(Coord('e', 4).to_index(), 36);
}

#[test]
fn index_and_square_name_each_other() {
    for i in 0..64 {
        let c = coord_from_index(i);
        assert!(c.valid());
        assert_eq!(c.to_index(), i);
    }
    for (n, file) in "abcdefgh".chars().enumerate() {
        for rank in 1..=8u8 {
            let c = Coord(file, rank);
            let i = c.to_index();
            assert_eq!(i, (8 - rank as i32) * 8 + n as i32);
            assert_eq!(coord_from_index(i), c);
        }
    }
}

#[test]
fn corners_have_the_expected_indices() {
    assert_eq!(Coord('a', 8).to_index(), 0);
    assert_eq!(Coord('h', 8).to_index(), 7);
    assert_eq!(Coord('a', 1).to_index(), 56);
    assert_eq!(Coord('h', 1).to_index(), 63);
    assert_eq!(coord_from_index(0), Coord('a', 8));
    assert_eq!(coord_from_index(63), Coord('h', 1));
}

#[test]
fn squares_off_the_board_are_not_valid() {
    assert!(Coord('a', 1).valid());
    assert!(Coord('h', 8).valid());
    assert!(!Coord('i', 1).valid());
    assert!(!Coord('A', 1).valid());
    assert!(!Coord('a', 0).valid());
    assert!(!Coord('a', 9).valid());
    assert_eq!(Coord('e', 4).file_as_i32(), Some(5));
    assert_eq!(Coord('x', 4).file_as_i32(), None);
    assert_eq!(i32_as_file(1), Some('a'));
    assert_eq!(i32_as_file(8), Some('h'));
    assert_eq!(i32_as_file(0), None);
    assert_eq!(i32_as_file(9), None);
}

#[test]
fn steps_along_ranks_and_files() {
    let e4 = Coord('e', 4);
    assert_eq!(e4.n(1, 1), Some(Coord('e', 5)));
    assert_eq!(e4.n(-1, 1), Some(Coord('e', 3)));
    assert_eq!(e4.n(1, 4), Some(Coord('e', 8)));
    assert_eq!(e4.n(1, 5), None);
    assert_eq!(e4.s(1, 3), Some(Coord('e', 1)));
    assert_eq!(e4.s(1, 4), None);
    assert_eq!(e4.s(-1, 2), Some(Coord('e', 6)));
    assert_eq!(e4.e(1, 3), Some(Coord('h', 4)));
    assert_eq!(e4.e(1, 4), None);
    assert_eq!(e4.w(1, 4), Some(Coord('a', 4)));
    assert_eq!(e4.w(1, 5), None);
    assert_eq!(e4.w(-1, 1), Some(Coord('f', 4)));
    assert_eq!(Coord('x', 4).e(1, 1), None);
    // a count times a direction that does not fit 32 bits is still a step off the board
    assert_eq!(e4.n(i32::MAX, i32::MAX), None);
    assert_eq!(e4.e(i32::MIN, i32::MIN), None);
}

#[test]
fn diagonal_steps() {
    let e4 = Coord('e', 4);
    assert_eq!(e4.ne(1, 1), Some(Coord('f', 5)));
    assert_eq!(e4.se(1, 1), Some(Coord('f', 3)));
    assert_eq!(e4.sw(1, 1), Some(Coord('d', 3)));
    assert_eq!(e4.nw(1, 1), Some(Coord('d', 5)));
    // for black every step is turned round
    assert_eq!(e4.ne(-1, 1), Some(Coord('d', 3)));
    assert_eq!(e4.nw(-1, 1), Some(Coord('f', 3)));
    assert_eq!(e4.ne(1, 4), None);
    assert_eq!(e4.sw(1, 4), None);
    assert_eq!(Coord('h', 8).ne(1, 1), None);
    assert_eq!(Coord('a', 1).sw(1, 1), None);
}

#[test]
fn a_step_never_wraps_round_an_edge() {
    // h4 is index 39; one file to the east is off the board, not a5 (index 40)
    assert_eq!(Coord('h', 4).to(1, 0), None);
    assert_eq!(Coord('a', 4).to(-1, 0), None);
    assert_eq!(Coord('h', 4).to(1, 1), None);
    assert_eq!(Coord('e', 8).to(0, 1), None);
    assert_eq!(Coord('e', 1).to(0, -1), None);
    assert_eq!(Coord('e', 4).to(1, 2), Some(Coord('f', 6)));
    assert_eq!(Coord('e', 4).to(-2, -1), Some(Coord('c', 3)));
    assert_eq!(Coord('e', 4).to(0, 0), Some(Coord('e', 4)));
}

#[test]
fn rank_difference_is_absolute() {
    assert_eq!(Coord('e', 2).rank_diff(&Coord('e', 4)), 2);
    assert_eq!(Coord('e', 7).rank_diff(&Coord('a', 5)), 2);
    assert_eq!(Coord('e', 4).rank_diff(&Coord('h', 4)), 0);
    assert_eq!(Coord('e', 1).rank_diff(&Coord('e', 8)), 7);
}

#[test]
fn square_names() {
    assert_eq!(Coord('e', 3).format(), "e3");
    assert_eq!(Coord('a', 8).format(), "a8");
    assert_eq!(Coord('z', 0).format(), "z0");
    assert_eq!(Coord('h', 12).format(), "h12");
    assert_eq!(Coord('h', 255).format(), "h255");
}

#[test]
fn file_and_rank_of_an_index() {
    assert_eq!(file_of_index(0), 'a');
    assert_eq!(file_of_index(7), 'h');
    assert_eq!(file_of_index(36), 'e');
    assert_eq!(file_of_index(64), 'a');
    assert_eq!(file_of_index(-8), 'a');
    assert_eq!(file_of_index(-3), 'X');
    assert_eq!(rank_of_index(0), 8);
    assert_eq!(rank_of_index(7), 8);
    assert_eq!(rank_of_index(8), 7);
    assert_eq!(rank_of_index(63), 1);
    assert_eq!(rank_of_index(64), 0);
    assert_eq!(rank_of_index(-1), 0);
    assert!(is_rank(36, 4));
    assert!(!is_rank(36, 5));
    assert!(is_rank(100, 0));
    assert_eq!(coord_from_index(64), Coord('a', 0));
    assert_eq!(coord_from_index(-1), Coord('X', 0));
}

#[test]
fn characters_by_code_point() {
    assert_eq!(get_uni_char(0x41), 'A');
    assert_eq!(get_uni_char(0x2654), '\u{2654}');
    assert_eq!(get_uni_char(0xD7FF), '\u{D7FF}');
    assert_eq!(get_uni_char(0xD800), '\u{FFFD}');
    assert_eq!(get_uni_char(0xDFFF), '\u{FFFD}');
    assert_eq!(get_uni_char(0xE000), '\u{E000}');
    assert_eq!(get_uni_char(0x10FFFF), '\u{10FFFF}');
    assert_eq!(get_uni_char(0x110000), '\u{FFFD}');
}
