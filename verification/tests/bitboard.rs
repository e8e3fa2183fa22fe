use chess_core::bitboard::{asci_board_indicies, to_asci_board, BitBoard};

#[test]
fn set_index_1() {
    let mut bb = BitBoard(1);

    let expected = BitBoard(0b0000_0000_0000_0000_0000_0000_0000_0000_0000_0000_0000_0000_0000_0000_0000_1001);
    let actual = bb.set_index(3);

    assert_eq!(expected, actual);
}

#[test]
fn set_index_2() {
    let mut bb = BitBoard(1);

    let expected = BitBoard(0b1000_0000_0000_0000_0000_0000_0000_0000_0000_0000_0000_0000_0000_0000_0000_0001);
    let actual = bb.set_index(63);

    assert_eq!(expected, actual);
}

#[test]
fn unset_index_1() {
    let mut bb = BitBoard(1);

    let expected = BitBoard(0b0000_0000_0000_0000_0000_0000_0000_0000_0000_0000_0000_0000_0000_0000_0000_0000);
    let actual = bb.unset_index(0);

    assert_eq!(expected, actual);
}

#[test]
fn unset_index_2() {
    let mut bb = BitBoard(8);

    let expected = BitBoard(0b0000_0000_0000_0000_0000_0000_0000_0000_0000_0000_0000_0000_0000_0000_0000_0000);
    let actual = bb.unset_index(3);

    assert_eq!(expected, actual);
}

#[test]
fn unset_index_3() {
    let mut bb = BitBoard(9);

    let expected = BitBoard(0b0000_0000_0000_0000_0000_0000_0000_0000_0000_0000_0000_0000_0000_0000_0000_0001);
    let actual = bb.unset_index(3);

    assert_eq!(expected, actual);
}

#[test]
fn set_by_column_and_row() {
    let mut bb = BitBoard(0);
    bb.set(0, 0);
    bb.set(7, 7);
    assert_eq!(bb, BitBoard(0x8000_0000_0000_0001));
    bb.set(4, 4);
    assert_eq!(bb.get_indicies(), vec![0, 36, 63]);
}

#[test]
fn count_is_the_number_of_members() {
    assert_eq!(BitBoard(0).count(), 0);
    assert_eq!(BitBoard(0b1011).count(), 3);
    assert_eq!(BitBoard(u64::MAX).count(), 64);
    assert_eq!(BitBoard(0xFF00).count(), BitBoard(0xFF00).get_indicies().len() as u32);
}

#[test]
fn indices_are_ascending_and_complete() {
    assert_eq!(BitBoard(0).get_indicies(), Vec::<u32>::new());
    assert_eq!(BitBoard(0b1001).get_indicies(), vec![0, 3]);
    assert_eq!(BitBoard(1 << 63).get_indicies(), vec![63]);
    let all = BitBoard(u64::MAX).get_indicies();
    assert_eq!(all.len(), 64);
    for (i, v) in all.iter().enumerate() {
        assert_eq!(*v as usize, i);
    }
}

#[test]
fn test_tells_membership() {
    let bb = BitBoard(0b1001);
    assert!(bb.test(0));
    assert!(!bb.test(1));
    assert!(bb.test(3));
    assert!(!bb.test(63));
}

#[test]
fn union_and_intersection() {
    let a = BitBoard(0b1100);
    let b = BitBoard(0b1010);
    assert_eq!(a & b, BitBoard(0b1000));
    assert_eq!(a | b, BitBoard(0b1110));
    assert_eq!(BitBoard::default(), BitBoard(0));
}

#[test]
fn set_then_unset_gives_the_set_back() {
    let mut bb = BitBoard(0b0101);
    let before = bb;
    bb.set_index(40);
    assert!(bb.test(40));
    bb.unset_index(40);
    assert_eq!(bb, before);
    // setting a member and clearing a non-member change nothing
    bb.set_index(0);
    assert_eq!(bb, before);
    bb.unset_index(1);
    assert_eq!(bb, before);
}

#[test]
fn format_is_binary_with_prefix() {
    assert_eq!(
        BitBoard(9).format(),
        "0b0000000000000000000000000000000000000000000000000000000000001001"
    );
    assert_eq!(BitBoard(9).format(), format!("{:#066b}", 9u64));
    assert_eq!(BitBoard(u64::MAX).format(), format!("{:#066b}", u64::MAX));
    assert_eq!(BitBoard(1 << 63).format().len(), 66);
    assert!(BitBoard(1 << 63).format().starts_with("0b1"));
}

#[test]
fn ascii_board_of_a_set() {
    let drawn = to_asci_board(BitBoard(0b1 | 1 << 9 | 1 << 63), 0x265F);
    let lines: Vec<&str> = drawn.split('\n').collect();
    assert_eq!(lines.len(), 8);
    assert_eq!(lines[0], "[\u{265F}][ ][ ][ ][ ][ ][ ][ ]");
    assert_eq!(lines[1], "[ ][\u{265F}][ ][ ][ ][ ][ ][ ]");
    assert_eq!(lines[2], "[ ][ ][ ][ ][ ][ ][ ][ ]");
    assert_eq!(lines[7], "[ ][ ][ ][ ][ ][ ][ ][\u{265F}]");
    assert!(!drawn.ends_with('\n'));
    // a code point that is no character draws the replacement character
    let odd = to_asci_board(BitBoard(1), 0xD800);
    assert!(odd.starts_with("[\u{FFFD}]"));
}

#[test]
fn ascii_board_of_indices() {
    let drawn = asci_board_indicies();
    let lines: Vec<&str> = drawn.split('\n').collect();
    assert_eq!(lines.len(), 8);
    assert_eq!(lines[0], "[\t0\t][\t1\t][\t2\t][\t3\t][\t4\t][\t5\t][\t6\t][\t7\t]");
    assert!(lines[1].starts_with("[\t8\t][\t9\t][\t10\t]"));
    assert!(lines[7].ends_with("[\t62\t][\t63\t]"));
}
