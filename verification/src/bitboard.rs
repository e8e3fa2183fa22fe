//! A set of board squares packed into one 64-bit word.

use core::ops::{BitAnd, BitOr};
use crate::text::{decimal_text, push_char, push_decimal};
use crate::utils::{get_uni_char, spec_uni_char};
use vstd::prelude::*;
use vstd::std_specs::bits::{axiom_u64_trailing_zeros, u64_trailing_zeros};
use vstd::std_specs::ops::{BitAndSpecImpl, BitOrSpecImpl};

verus! {

/// Whether bit `i` of `bits` is set. Indices outside `0..64` name no bit.
pub open spec fn bit_of(bits: u64, i: int) -> bool {
    0 <= i < 64 && (bits >> (i as u64)) & 1 == 1
}

/// The set bits of `bits` whose index is below `k`.
pub open spec fn members_below(bits: u64, k: int) -> Set<int> {
    Set::new(|i: int| i < k && bit_of(bits, i))
}

/// A set of squares `0..64`: bit `i` is set exactly when square `i` is a
/// member. Square 0 is the top-left corner as the board is drawn, and the
/// index grows along a rank first.
#[derive(PartialEq, Eq, Structural, PartialOrd, Clone, Copy, Debug, Hash)]
pub struct BitBoard(pub u64);

impl View for BitBoard {
    type V = Set<int>;

    /// The members of the set.
    open spec fn view(&self) -> Set<int> {
        Set::new(|i: int| bit_of(self.0, i))
    }
}

/// Setting bit `i` turns bit `i` on and leaves every other bit as it was.
pub proof fn lemma_bit_set(x: u64, i: u64, j: u64)
    by (bit_vector)
    requires
        i < 64,
        j < 64,
    ensures
        (((x | (1u64 << i)) >> j) & 1 == 1) <==> ((x >> j) & 1 == 1 || i == j),
{
}

/// Clearing bit `i` turns bit `i` off and leaves every other bit as it was.
pub proof fn lemma_bit_clear(x: u64, i: u64, j: u64)
    by (bit_vector)
    requires
        i < 64,
        j < 64,
    ensures
        (((x & !(1u64 << i)) >> j) & 1 == 1) <==> ((x >> j) & 1 == 1 && i != j),
{
}

/// A bit of `a & b` is set exactly when it is set in both.
pub proof fn lemma_bit_and(a: u64, b: u64, j: u64)
    by (bit_vector)
    requires
        j < 64,
    ensures
        (((a & b) >> j) & 1 == 1) <==> ((a >> j) & 1 == 1 && (b >> j) & 1 == 1),
{
}

/// A bit of `a | b` is set exactly when it is set in either.
pub proof fn lemma_bit_or(a: u64, b: u64, j: u64)
    by (bit_vector)
    requires
        j < 64,
    ensures
        (((a | b) >> j) & 1 == 1) <==> ((a >> j) & 1 == 1 || (b >> j) & 1 == 1),
{
}

/// The empty word has no bit set.
pub proof fn lemma_bit_zero(j: u64)
    by (bit_vector)
    requires
        j < 64,
    ensures
        (0u64 >> j) & 1 == 0,
{
}

/// A bit of `a ^ b` is set exactly when it is set in one of the two only.
pub proof fn lemma_bit_xor(a: u64, b: u64, j: u64)
    by (bit_vector)
    requires
        j < 64,
    ensures
        (((a ^ b) >> j) & 1 == 1) <==> (((a >> j) & 1 == 1) != ((b >> j) & 1 == 1)),
{
}

/// Two words with the same bits are the same word.
pub proof fn lemma_same_bits(a: u64, b: u64)
    requires
        forall|j: int| 0 <= j < 64 ==> bit_of(a, j) == bit_of(b, j),
    ensures
        a == b,
{
    let x = a ^ b;
    if x != 0 {
        axiom_u64_trailing_zeros(x);
        let t = u64_trailing_zeros(x) as u64;
        lemma_bit_xor(a, b, t);
        assert(bit_of(a, t as int) == bit_of(b, t as int));
    }
    assert(a ^ b == 0 ==> a == b) by (bit_vector);
}

/// A word is zero exactly when none of its bits is set.
pub proof fn lemma_zero_iff_no_bit(a: u64)
    ensures
        a == 0 <==> (forall|j: int| 0 <= j < 64 ==> !bit_of(a, j)),
{
    assert forall|j: int| 0 <= j < 64 implies !bit_of(0u64, j) by {
        lemma_bit_zero(j as u64);
    }
    if forall|j: int| 0 <= j < 64 ==> !bit_of(a, j) {
        lemma_same_bits(a, 0);
    }
}

/// The members below `k` form a finite set of at most `k` squares, and
/// moving the bound up by one adds square `k` exactly when its bit is set.
pub proof fn lemma_members_below(bits: u64, k: int)
    requires
        0 <= k,
    ensures
        members_below(bits, k).finite(),
        members_below(bits, k).len() <= k,
        members_below(bits, k + 1) == if bit_of(bits, k) {
            members_below(bits, k).insert(k)
        } else {
            members_below(bits, k)
        },
    decreases k,
{
    if k == 0 {
        assert(members_below(bits, 0) =~= Set::<int>::empty());
    } else {
        lemma_members_below(bits, k - 1);
    }
    if bit_of(bits, k) {
        assert(members_below(bits, k + 1) =~= members_below(bits, k).insert(k));
    } else {
        assert(members_below(bits, k + 1) =~= members_below(bits, k));
    }
}

impl BitBoard {
    /// Whether square `i` is a member.
    pub open spec fn has(self, i: int) -> bool {
        bit_of(self.0, i)
    }

    /// The text of the word in binary: `0b`, then all 64 bits from the
    /// highest square down to square 0.
    pub open spec fn binary_text(self) -> Seq<char> {
        seq!['0', 'b'] + Seq::new(
            64,
            |k: int|
                if self.has(63 - k) {
                    '1'
                } else {
                    '0'
                },
        )
    }

    /// The set is finite, and it is what lies below the bound 64.
    pub proof fn lemma_view_finite(self)
        ensures
            self@.finite(),
            self@.len() <= 64,
            self@ == members_below(self.0, 64),
    {
        lemma_members_below(self.0, 64);
        assert(self@ =~= members_below(self.0, 64));
    }

    /// Two boards with the same members are the same board.
    pub proof fn lemma_view_determines(self, other: BitBoard)
        requires
            self@ == other@,
        ensures
            self == other,
    {
        assert forall|j: int| 0 <= j < 64 implies bit_of(self.0, j) == bit_of(other.0, j) by {
            assert(self@.contains(j) == bit_of(self.0, j));
            assert(other@.contains(j) == bit_of(other.0, j));
        }
        lemma_same_bits(self.0, other.0);
    }

    /// Adds the square in column `x` (from the left) of row `y` (from the
    /// top), which is square `y * 8 + x`.
    pub fn set(&mut self, x: u8, y: u8)
        requires
            y * 8 + x < 64,
        ensures
            final(self)@ == old(self)@.insert(y * 8 + x),
    {
        let bit_pos: u8 = (y * 8) + x;
        self.set_index(bit_pos);
    }

    /// The number of squares in the set.
    pub fn count(self) -> (n: u32)
        ensures
            n == self@.len(),
    {
        let mut n: u32 = 0;
        let mut i: u8 = 0;
        proof {
            lemma_members_below(self.0, 0);
        }
        while i < 64
            invariant
                i <= 64,
                n <= i,
                n == members_below(self.0, i as int).len(),
            decreases 64 - i,
        {
            proof {
                lemma_members_below(self.0, i as int);
            }
            if (self.0 >> i) & 1 == 1 {
                n = n + 1;
            }
            i = i + 1;
        }
        proof {
            self.lemma_view_finite();
        }
        n
    }

    /// The squares of the set in ascending order, each once.
    pub fn get_indicies(self) -> (v: Vec<u32>)
        ensures
            forall|j: int| 0 <= j < v.len() ==> self.has(#[trigger] v[j] as int),
            forall|i: int| self.has(i) ==> exists|j: int| 0 <= j < v.len() && #[trigger] v[j] == i,
            forall|a: int, b: int| 0 <= a < b < v.len() ==> v[a] < v[b],
            v.len() == self@.len(),
    {
        let mut v: Vec<u32> = Vec::new();
        let mut i: u8 = 0;
        proof {
            lemma_members_below(self.0, 0);
        }
        while i < 64
            invariant
                i <= 64,
                forall|j: int| 0 <= j < v.len() ==> self.has(#[trigger] v[j] as int) && v[j] < i,
                forall|k: int|
                    self.has(k) && k < i ==> exists|j: int| 0 <= j < v.len() && #[trigger] v[j] == k,
                forall|a: int, b: int| 0 <= a < b < v.len() ==> v[a] < v[b],
                v.len() == members_below(self.0, i as int).len(),
            decreases 64 - i,
        {
            proof {
                lemma_members_below(self.0, i as int);
            }
            if (self.0 >> i) & 1 == 1 {
                let ghost before = v@;
                v.push(i as u32);
                assert forall|k: int| self.has(k) && k < i + 1 implies exists|j: int|
                    0 <= j < v.len() && #[trigger] v[j] == k by {
                    if k == i {
                        assert(v[before.len() as int] == k);
                    } else {
                        let j = choose|j: int| 0 <= j < before.len() && #[trigger] before[j] == k;
                        assert(v[j] == k);
                    }
                }
            }
            i = i + 1;
        }
        proof {
            self.lemma_view_finite();
        }
        v
    }

    /// Adds square `index` and returns the set as it then is.
    pub fn set_index(&mut self, index: u8) -> (r: BitBoard)
        requires
            index < 64,
        ensures
            final(self)@ == old(self)@.insert(index as int),
            forall|j: int| final(self).has(j) == (old(self).has(j) || j == index),
            r == *final(self),
    {
        let bit: u64 = 1u64 << index;
        self.0 = self.0 | bit;
        proof {
            let a = old(self).0;
            let b = self.0;
            assert forall|j: int| bit_of(b, j) == (bit_of(a, j) || j == index) by {
                if 0 <= j < 64 {
                    lemma_bit_set(a, index as u64, j as u64);
                }
            }
            assert(self@ =~= old(self)@.insert(index as int));
        }
        *self
    }

    /// Removes square `index` and returns the set as it then is.
    pub fn unset_index(&mut self, index: u8) -> (r: BitBoard)
        requires
            index < 64,
        ensures
            final(self)@ == old(self)@.remove(index as int),
            forall|j: int| final(self).has(j) == (old(self).has(j) && j != index),
            r == *final(self),
    {
        let bit: u64 = 1u64 << index;
        self.0 = self.0 & !bit;
        proof {
            let a = old(self).0;
            let b = self.0;
            assert forall|j: int| bit_of(b, j) == (bit_of(a, j) && j != index) by {
                if 0 <= j < 64 {
                    lemma_bit_clear(a, index as u64, j as u64);
                }
            }
            assert(self@ =~= old(self)@.remove(index as int));
        }
        *self
    }

    /// Whether square `index` is a member.
    pub fn test(self, index: u8) -> (b: bool)
        requires
            index < 64,
        ensures
            b == self.has(index as int),
    {
        (self.0 >> index) & 1 == 1
    }

    /// The word in binary, as `0b` and 64 digits.
    pub fn format(self) -> (s: String)
        ensures
            s@ == self.binary_text(),
    {
        let mut s = String::new();
        s.append("0b");
        proof {
            reveal_strlit("0b");
            assert(s@ =~= seq!['0', 'b']);
        }
        let mut k: u8 = 0;
        while k < 64
            invariant
                k <= 64,
                s@.len() == 2 + k,
                s@.subrange(0, 2) == seq!['0', 'b'],
                forall|i: int|
                    2 <= i < 2 + k ==> #[trigger] s@[i] == (if self.has(65 - i) {
                        '1'
                    } else {
                        '0'
                    }),
            decreases 64 - k,
        {
            let ghost before = s@;
            if (self.0 >> (63 - k)) & 1 == 1 {
                s.append("1");
                proof {
                    reveal_strlit("1");
                }
            } else {
                s.append("0");
                proof {
                    reveal_strlit("0");
                }
            }
            proof {
                assert(s@.len() == before.len() + 1);
                assert(s@.subrange(0, 2) =~= before.subrange(0, 2));
                assert forall|i: int| 2 <= i < 2 + k + 1 implies #[trigger] s@[i] == (if self.has(
                    65 - i,
                ) {
                    '1'
                } else {
                    '0'
                }) by {
                    if i < 2 + k {
                        assert(s@[i] == before[i]);
                    }
                }
            }
            k = k + 1;
        }
        proof {
            let t = self.binary_text();
            assert(s@.len() == t.len());
            assert forall|i: int| 0 <= i < s@.len() implies s@[i] == t[i] by {
                if i < 2 {
                    assert(s@[i] == s@.subrange(0, 2)[i]);
                } else {
                    assert(t[i] == Seq::new(
                        64,
                        |k: int|
                            if self.has(63 - k) {
                                '1'
                            } else {
                                '0'
                            },
                    )[i - 2]);
                }
            }
            assert(s@ =~= t);
        }
        s
    }
}

impl Default for BitBoard {
    /// The empty set.
    fn default() -> (r: BitBoard)
        ensures
            r.0 == 0,
            r@ == Set::<int>::empty(),
    {
        let r = BitBoard(0);
        proof {
            assert forall|j: int| !bit_of(0u64, j) by {
                if 0 <= j < 64 {
                    lemma_bit_zero(j as u64);
                }
            }
            assert(r@ =~= Set::<int>::empty());
        }
        r
    }
}

impl BitAnd for BitBoard {
    type Output = BitBoard;

    /// The squares that belong to both sets.
    fn bitand(self, other: BitBoard) -> (r: BitBoard)
        ensures
            r@ == self@.intersect(other@),
    {
        let r = BitBoard(self.0 & other.0);
        proof {
            assert forall|j: int| bit_of(r.0, j) == (bit_of(self.0, j) && bit_of(other.0, j)) by {
                if 0 <= j < 64 {
                    lemma_bit_and(self.0, other.0, j as u64);
                }
            }
            assert(r@ =~= self@.intersect(other@));
        }
        r
    }
}

impl BitAndSpecImpl for BitBoard {
    open spec fn obeys_bitand_spec() -> bool {
        true
    }

    open spec fn bitand_req(self, other: BitBoard) -> bool {
        true
    }

    open spec fn bitand_spec(self, other: BitBoard) -> BitBoard {
        BitBoard(self.0 & other.0)
    }
}

impl BitOr for BitBoard {
    type Output = BitBoard;

    /// The squares that belong to either set.
    fn bitor(self, other: BitBoard) -> (r: BitBoard)
        ensures
            r@ == self@.union(other@),
    {
        let r = BitBoard(self.0 | other.0);
        proof {
            assert forall|j: int| bit_of(r.0, j) == (bit_of(self.0, j) || bit_of(other.0, j)) by {
                if 0 <= j < 64 {
                    lemma_bit_or(self.0, other.0, j as u64);
                }
            }
            assert(r@ =~= self@.union(other@));
        }
        r
    }
}

impl BitOrSpecImpl for BitBoard {
    open spec fn obeys_bitor_spec() -> bool {
        true
    }

    open spec fn bitor_req(self, other: BitBoard) -> bool {
        true
    }

    open spec fn bitor_spec(self, other: BitBoard) -> BitBoard {
        BitBoard(self.0 | other.0)
    }
}


/// The line break that ends every rank of a drawn board but the last.
pub open spec fn rank_end(n: int) -> Seq<char> {
    if n < 63 && n % 8 == 7 {
        seq!['\n']
    } else {
        Seq::empty()
    }
}

/// The first `n` squares of a set drawn as cells: a member as the glyph in
/// brackets, any other square as an empty cell, eight cells to a line.
pub open spec fn drawn_cells(board: BitBoard, glyph: char, n: int) -> Seq<char>
    decreases n,
{
    if n <= 0 {
        Seq::empty()
    } else {
        drawn_cells(board, glyph, n - 1) + (if board.has(n - 1) {
            seq!['[', glyph, ']']
        } else {
            "[ ]"@
        }) + rank_end(n - 1)
    }
}

/// The first `n` squares of a board drawn as cells that hold their index
/// between two tabs, eight cells to a line.
pub open spec fn numbered_cells(n: int) -> Seq<char>
    decreases n,
{
    if n <= 0 {
        Seq::empty()
    } else {
        numbered_cells(n - 1) + "[\t"@ + decimal_text((n - 1) as nat) + "\t]"@ + rank_end(n - 1)
    }
}

/// The set drawn as a board of 64 cells, with the character of the given
/// code point on its members.
pub fn to_asci_board(board: BitBoard, asci_piece: u32) -> (output: String)
    ensures
        output@ == drawn_cells(board, spec_uni_char(asci_piece), 64),
{
    let glyph = get_uni_char(asci_piece);
    let mut output = String::new();
    let mut n: u8 = 0;
    while n < 64
        invariant
            n <= 64,
            glyph == spec_uni_char(asci_piece),
            output@ == drawn_cells(board, glyph, n as int),
        decreases 64 - n,
    {
        let ghost before = output@;
        if board.test(n) {
            push_char(&mut output, '[');
            push_char(&mut output, glyph);
            push_char(&mut output, ']');
        } else {
            output.append("[ ]");
        }
        if n < 63 && n % 8 == 7 {
            push_char(&mut output, '\n');
        }
        proof {
            assert(output@ =~= before + (if board.has(n as int) {
                seq!['[', glyph, ']']
            } else {
                "[ ]"@
            }) + rank_end(n as int));
        }
        n = n + 1;
    }
    output
}

/// A board of 64 cells that hold their indices.
pub fn asci_board_indicies() -> (output: String)
    ensures
        output@ == numbered_cells(64),
{
    let mut output = String::new();
    let mut n: u32 = 0;
    while n < 64
        invariant
            n <= 64,
            output@ == numbered_cells(n as int),
        decreases 64 - n,
    {
        let ghost before = output@;
        output.append("[\t");
        push_decimal(&mut output, n);
        output.append("\t]");
        if n < 63 && n % 8 == 7 {
            push_char(&mut output, '\n');
        }
        proof {
            assert(output@ =~= before + "[\t"@ + decimal_text(n as nat) + "\t]"@ + rank_end(
                n as int,
            ));
        }
        n = n + 1;
    }
    output
}

} // verus!
