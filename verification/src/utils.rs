//! From a board index back to file, rank and square.

use crate::board_navigator::coord::{file_letter, file_number, Coord};
use vstd::prelude::*;

verus! {

/// The rank of a board index: 8 for the first row down to 1 for the last,
/// and 0 for an index that is not on the board.
pub open spec fn spec_rank_of_index(index: int) -> int {
    if 0 <= index < 64 {
        8 - index / 8
    } else {
        0
    }
}

/// The file letter of a board index, by its remainder modulo 8 (the
/// remainder has the sign of the index); `X` where that remainder is
/// negative.
pub open spec fn spec_file_of_index(index: int) -> char {
    if index >= 0 {
        file_letter(index % 8 + 1).unwrap()
    } else if (-index) % 8 == 0 {
        'a'
    } else {
        'X'
    }
}

/// The square of a board index.
pub open spec fn spec_coord_from_index(index: int) -> Coord {
    Coord(spec_file_of_index(index), spec_rank_of_index(index) as u8)
}

/// A character by its code point, or the replacement character where the
/// code point is none.
pub open spec fn spec_uni_char(i: u32) -> char {
    if i <= 0xD7FF || 0xE000 <= i <= 0x10FFFF {
        i as char
    } else {
        '\u{FFFD}'
    }
}

/// `char::from_u32` of the standard library gives the character with the
/// code point `i` where `i` is a Unicode scalar value (below the
/// surrogates, or above them up to `0x10FFFF`), and nothing otherwise.
pub assume_specification[ char::from_u32 ](i: u32) -> (r: Option<char>)
    ensures
        r == if i <= 0xD7FF || 0xE000 <= i <= 0x10FFFF {
            Some(i as char)
        } else {
            None
        },
;

/// The character with code point `i`, or the replacement character.
pub fn get_uni_char(i: u32) -> (c: char)
    ensures
        c == spec_uni_char(i),
{
    match char::from_u32(i) {
        Some(c) => c,
        None => '\u{FFFD}',
    }
}

/// Whether the board index lies on the given rank.
pub fn is_rank(index: i32, rank: i32) -> (b: bool)
    ensures
        b == (rank == spec_rank_of_index(index as int)),
{
    rank == rank_of_index(index)
}

/// The square of a board index. On the board this is the inverse of
/// [`Coord::to_index`].
pub fn coord_from_index(index: i32) -> (c: Coord)
    ensures
        c == spec_coord_from_index(index as int),
        0 <= index < 64 ==> c.is_valid() && c.index() == index,
{
    let rank = rank_of_index(index);
    let file = file_of_index(index);
    Coord(file, rank as u8)
}

/// The file letter of a board index.
pub fn file_of_index(index: i32) -> (c: char)
    ensures
        c == spec_file_of_index(index as int),
{
    match index % 8 {
        0 => 'a',
        1 => 'b',
        2 => 'c',
        3 => 'd',
        4 => 'e',
        5 => 'f',
        6 => 'g',
        7 => 'h',
        _ => 'X',
    }
}

/// The rank of a board index, 0 off the board.
pub fn rank_of_index(index: i32) -> (r: i32)
    ensures
        r == spec_rank_of_index(index as int),
{
    match index {
        0..=7 => 8,
        8..=15 => 7,
        16..=23 => 6,
        24..=31 => 5,
        32..=39 => 4,
        40..=47 => 3,
        48..=55 => 2,
        56..=63 => 1,
        _ => 0,
    }
}

/// Index and square name each other: the square of an index on the board
/// has that index, and the index of a square of the board gives back the
/// square.
pub proof fn lemma_index_round_trip()
    ensures
        forall|i: int|
            0 <= i < 64 ==> (#[trigger] spec_coord_from_index(i)).is_valid()
                && spec_coord_from_index(i).index() == i,
        forall|c: Coord|
            c.is_valid() ==> 0 <= #[trigger] c.index() < 64 && spec_coord_from_index(c.index())
                == c,
{
}

} // verus!
