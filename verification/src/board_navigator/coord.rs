//! Squares by file and rank, their place on the 64-square board, and
//! bounded steps between them.

use crate::text::decimal_text;
use vstd::prelude::*;

verus! {

/// The number 1 to 8 of a file letter `a` to `h`; no other character is a
/// file.
pub open spec fn file_number(file: char) -> Option<int> {
    if 'a' <= file <= 'h' {
        Some(file as int - 'a' as int + 1)
    } else {
        None
    }
}

/// The letter of file 1 to 8; no other number is a file.
pub open spec fn file_letter(file: int) -> Option<char> {
    if 1 <= file <= 8 {
        Some((file - 1 + 'a' as int) as char)
    } else {
        None
    }
}

/// A square named by its file letter and its rank number.
///
/// Only the pairs with a file `a` to `h` and a rank 1 to 8 are squares of
/// the board, see [`Coord::is_valid`].
#[derive(Debug, Clone, Copy, PartialEq, Eq, Structural)]
pub struct Coord(pub char, pub u8);

impl Coord {
    /// Whether this is one of the 64 squares of the board.
    pub open spec fn is_valid(self) -> bool {
        file_number(self.0) is Some && 1 <= self.1 <= 8
    }

    /// The place of a square on the board: rank 8 is the first row, file
    /// `a` the first column.
    pub open spec fn index(self) -> int {
        (8 - self.1) * 8 + (file_number(self.0).unwrap() - 1)
    }

    /// The square `d` ranks up, if that rank is on the board.
    pub open spec fn shift_rank(self, d: int) -> Option<Coord> {
        let rank = self.1 + d;
        if 1 <= rank <= 8 {
            Some(Coord(self.0, rank as u8))
        } else {
            None
        }
    }

    /// The square `d` files to the right, if this square has a file and
    /// that file is on the board.
    pub open spec fn shift_file(self, d: int) -> Option<Coord> {
        match file_number(self.0) {
            Some(file) => match file_letter(file + d) {
                Some(letter) => Some(Coord(letter, self.1)),
                None => None,
            },
            None => None,
        }
    }

    /// The square `dy` ranks up and `dx` files to the right. Rank and file
    /// are bounded each on its own, so a step never wraps round an edge.
    pub open spec fn offset(self, dx: int, dy: int) -> Option<Coord> {
        match self.shift_rank(dy) {
            Some(c) => c.shift_file(dx),
            None => None,
        }
    }

    /// The absolute difference of the two ranks.
    pub open spec fn spec_rank_diff(self, other: Coord) -> int {
        if self.1 >= other.1 {
            self.1 - other.1
        } else {
            other.1 - self.1
        }
    }

    /// The name of the square: its file letter, then its rank in decimal.
    pub open spec fn text(self) -> Seq<char> {
        seq![self.0] + decimal_text(self.1 as nat)
    }

    /// Whether this is one of the 64 squares of the board.
    pub fn valid(&self) -> (b: bool)
        ensures
            b == self.is_valid(),
    {
        self.file_as_i32().is_some() && 1 <= self.1 && self.1 <= 8
    }

    /// `count * direction` ranks up.
    pub fn n(&self, direction: i32, count: i32) -> (r: Option<Coord>)
        ensures
            r == self.shift_rank(count * direction),
    {
        let step = signed_product(count, direction);
        let next_rank: i64 = self.1 as i64 + step;
        if 1 <= next_rank && next_rank <= 8 {
            Some(Coord(self.0, next_rank as u8))
        } else {
            None
        }
    }

    /// `count * direction` ranks down.
    pub fn s(&self, direction: i32, count: i32) -> (r: Option<Coord>)
        ensures
            r == self.shift_rank(-(count * direction)),
    {
        let step = signed_product(count, direction);
        let next_rank: i64 = self.1 as i64 - step;
        if 1 <= next_rank && next_rank <= 8 {
            Some(Coord(self.0, next_rank as u8))
        } else {
            None
        }
    }

    /// `count * direction` files to the right.
    pub fn e(&self, direction: i32, count: i32) -> (r: Option<Coord>)
        ensures
            r == self.shift_file(count * direction),
    {
        let step = signed_product(count, direction);
        let next_file: i64 = match self.file_as_i32() {
            Some(file) => file as i64 + step,
            None => {
                return None;
            },
        };
        match i64_as_file(next_file) {
            Some(f) => Some(Coord(f, self.1)),
            None => None,
        }
    }

    /// `count * direction` files to the left.
    pub fn w(&self, direction: i32, count: i32) -> (r: Option<Coord>)
        ensures
            r == self.shift_file(-(count * direction)),
    {
        let step = signed_product(count, direction);
        let next_file: i64 = match self.file_as_i32() {
            Some(file) => file as i64 - step,
            None => {
                return None;
            },
        };
        match i64_as_file(next_file) {
            Some(f) => Some(Coord(f, self.1)),
            None => None,
        }
    }

    /// `count * direction` ranks up, then as many files to the right.
    pub fn ne(&self, direction: i32, count: i32) -> (r: Option<Coord>)
        ensures
            r == self.offset(count * direction, count * direction),
    {
        match self.n(direction, count) {
            Some(n) => n.e(direction, count),
            None => None,
        }
    }

    /// `count * direction` ranks down, then as many files to the right.
    pub fn se(&self, direction: i32, count: i32) -> (r: Option<Coord>)
        ensures
            r == self.offset(count * direction, -(count * direction)),
    {
        match self.s(direction, count) {
            Some(s) => s.e(direction, count),
            None => None,
        }
    }

    /// `count * direction` ranks down, then as many files to the left.
    pub fn sw(&self, direction: i32, count: i32) -> (r: Option<Coord>)
        ensures
            r == self.offset(-(count * direction), -(count * direction)),
    {
        match self.s(direction, count) {
            Some(s) => s.w(direction, count),
            None => None,
        }
    }

    /// `count * direction` ranks up, then as many files to the left.
    pub fn nw(&self, direction: i32, count: i32) -> (r: Option<Coord>)
        ensures
            r == self.offset(-(count * direction), count * direction),
    {
        match self.n(direction, count) {
            Some(n) => n.w(direction, count),
            None => None,
        }
    }

    /// The square `y` ranks up and `x` files to the right, as white sees
    /// the board: `a1` is bottom left and `h8` top right.
    pub fn to(&self, x: i32, y: i32) -> (r: Option<Coord>)
        ensures
            r == self.offset(x as int, y as int),
    {
        match self.n(1, y) {
            Some(n) => n.e(1, x),
            None => None,
        }
    }

    /// The absolute difference of the two ranks.
    pub fn rank_diff(&self, other: &Coord) -> (d: i32)
        ensures
            d == self.spec_rank_diff(*other),
    {
        if self.1 >= other.1 {
            (self.1 - other.1) as i32
        } else {
            (other.1 - self.1) as i32
        }
    }

    /// The place of the square on the board, from 0 for `a8` along the
    /// ranks to 63 for `h1`.
    pub fn to_index(&self) -> (i: i32)
        requires
            self.is_valid(),
        ensures
            i == self.index(),
            0 <= i < 64,
    {
        let index_of_a_file_and_rank: u8 = (8 - self.1) * 8;
        match self.file_as_i32() {
            Some(file) => index_of_a_file_and_rank as i32 + (file - 1),
            None => 0,
        }
    }

    /// The number of the square's file, if it has one.
    pub fn file_as_i32(&self) -> (r: Option<i32>)
        ensures
            match r {
                Some(file) => file_number(self.0) == Some(file as int),
                None => file_number(self.0) is None,
            },
    {
        match self.0 {
            'a' => Some(1),
            'b' => Some(2),
            'c' => Some(3),
            'd' => Some(4),
            'e' => Some(5),
            'f' => Some(6),
            'g' => Some(7),
            'h' => Some(8),
            _ => None,
        }
    }

    /// The name of the square, such as `e4`.
    pub fn format(&self) -> (s: String)
        ensures
            s@ == self.text(),
    {
        let mut s = String::new();
        crate::text::push_char(&mut s, self.0);
        crate::text::push_decimal(&mut s, self.1 as u32);
        s
    }
}

/// The product of a count and a direction sign, widened so that it cannot
/// overflow.
fn signed_product(count: i32, direction: i32) -> (p: i64)
    ensures
        p == count * direction,
        -0x4000_0000_0000_0000 <= p <= 0x4000_0000_0000_0000,
{
    assert(-0x4000_0000_0000_0000 <= count * direction <= 0x4000_0000_0000_0000)
        by (nonlinear_arith)
        requires
            -0x8000_0000 <= count <= 0x8000_0000,
            -0x8000_0000 <= direction <= 0x8000_0000,
    ;
    (count as i64) * (direction as i64)
}

/// The letter of a file number, if it is 1 to 8.
pub fn i32_as_file(file: i32) -> (r: Option<char>)
    ensures
        r == file_letter(file as int),
{
    i64_as_file(file as i64)
}

fn i64_as_file(file: i64) -> (r: Option<char>)
    ensures
        r == file_letter(file as int),
{
    match file {
        1 => Some('a'),
        2 => Some('b'),
        3 => Some('c'),
        4 => Some('d'),
        5 => Some('e'),
        6 => Some('f'),
        7 => Some('g'),
        8 => Some('h'),
        _ => None,
    }
}

/// File letters and file numbers name each other.
pub proof fn lemma_file_round_trip()
    ensures
        forall|n: int| 1 <= n <= 8 ==> file_number(#[trigger] file_letter(n).unwrap()) == Some(n),
        forall|c: char|
            (#[trigger] file_number(c)) is Some ==> file_letter(file_number(c).unwrap()) == Some(c),
{
}

} // verus!
