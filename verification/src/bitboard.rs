//! A 64-bit set of board squares with bitwise algebra and directional shifts.
//!
//! Bit `i` set means square `i` is a member, where square `i` has file
//! `i & 7` and rank `i >> 3` (a1 = 0, h1 = 7, a8 = 56, h8 = 63).

use vstd::prelude::*;
use crate::square::{Square, ParseError, file_val, rank_val};

verus! {

/// The set of every square on the rank of square `s`.
pub open spec fn rank_bb_spec(s: u64) -> u64 {
    RANK_1 << (((s >> 3u64) * 8) as u64)
}

/// The set of every square on the file of square `s`.
pub open spec fn file_bb_spec(s: u64) -> u64 {
    FILE_A << (s & 7u64)
}

/// Every square of the a-file.
pub const FILE_A: u64 = 0x0101_0101_0101_0101;
/// Every square of the b-file.
pub const FILE_B: u64 = 0x0202_0202_0202_0202;
/// Every square of the g-file.
pub const FILE_G: u64 = 0x4040_4040_4040_4040;
/// Every square of the h-file.
pub const FILE_H: u64 = 0x8080_8080_8080_8080;

/// Every square of the first rank.
pub const RANK_1: u64 = 0x0000_0000_0000_00ff;
/// Every square of the second rank.
pub const RANK_2: u64 = 0x0000_0000_0000_ff00;
/// Every square of the seventh rank.
pub const RANK_7: u64 = 0x00ff_0000_0000_0000;
/// Every square of the eighth rank.
pub const RANK_8: u64 = 0xff00_0000_0000_0000;

/// The full board: all 64 squares.
pub const FULL: u64 = 0xffff_ffff_ffff_ffff;

/// True when bit `s` of `b` is set, i.e. square `s` is a member of `b`.
pub open spec fn has_sq(b: u64, s: u64) -> bool {
    s < 64 && (b >> s) & 1u64 == 1u64
}

/// The eight directions a piece can step on the board.
#[derive(Copy, Clone, Debug, PartialEq, Eq, Structural)]
pub enum Direction {
    North,
    NorthEast,
    East,
    SouthEast,
    South,
    SouthWest,
    West,
    NorthWest,
}

/// One directional step of a whole square set.
///
/// East/west-going steps first clear the file that would otherwise wrap
/// around the board edge: a piece on the h-file must vanish when stepping
/// east, not reappear on the a-file of the next rank.
pub open spec fn shift_spec(b: u64, d: Direction) -> u64 {
    match d {
        Direction::North => b << 8u64,
        Direction::NorthEast => (b & !FILE_H) << 9u64,
        Direction::East => (b & !FILE_H) << 1u64,
        Direction::SouthEast => (b & !FILE_H) >> 7u64,
        Direction::South => b >> 8u64,
        Direction::SouthWest => (b & !FILE_A) >> 9u64,
        Direction::West => (b & !FILE_A) >> 1u64,
        Direction::NorthWest => (b & !FILE_A) << 7u64,
    }
}

/// A 64-bit set of board squares.
#[derive(Copy, Clone, Debug, PartialEq, Eq, Structural)]
pub struct BitBoard {
    board: u64,
}

impl View for BitBoard {
    type V = u64;

    closed spec fn view(&self) -> u64 {
        self.board
    }
}

impl BitBoard {
    /// The set containing exactly the squares listed by `val`'s bits.
    pub fn new(board: u64) -> (r: Self)
        ensures
            r@ == board,
    {
        Self { board }
    }

    /// The empty set.
    pub fn zero() -> (r: Self)
        ensures
            r@ == 0u64,
    {
        Self { board: 0 }
    }

    /// The singleton set of square `val`.
    pub fn from_unshifted(val: u64) -> (r: Self)
        requires
            val < 64,
        ensures
            r@ == (1u64 << val),
    {
        Self { board: 1u64 << val }
    }

    /// The set whose raw bits are `val`.
    pub fn from_shifted(val: u64) -> (r: Self)
        ensures
            r@ == val,
    {
        Self { board: val }
    }

    /// Whether `sq` is a valid square index.
    pub fn valid_square(sq: &u64) -> (r: bool)
        ensures
            r == (*sq < 64),
    {
        *sq < 64
    }

    /// The raw 64-bit value.
    pub fn value(self) -> (r: u64)
        ensures
            r == self@,
    {
        self.board
    }

    /// Set union.
    pub fn or(self, rhs: Self) -> (r: Self)
        ensures
            r@ == (self@ | rhs@),
    {
        Self { board: self.board | rhs.board }
    }

    /// Set intersection.
    pub fn and(self, rhs: Self) -> (r: Self)
        ensures
            r@ == (self@ & rhs@),
    {
        Self { board: self.board & rhs.board }
    }

    /// Symmetric difference.
    pub fn xor(self, rhs: Self) -> (r: Self)
        ensures
            r@ == (self@ ^ rhs@),
    {
        Self { board: self.board ^ rhs.board }
    }

    /// Set complement.
    pub fn not(self) -> (r: Self)
        ensures
            r@ == !self@,
    {
        Self { board: !self.board }
    }

    /// Whether the set is empty.
    pub fn is_empty(self) -> (r: bool)
        ensures
            r == (self@ == 0u64),
    {
        self.board == 0
    }

    /// One directional step of the whole set; squares stepping off the
    /// board vanish.
    pub fn shift(self, direction: Direction) -> (r: Self)
        ensures
            r@ == shift_spec(self@, direction),
    {
        match direction {
            Direction::North => Self { board: self.board << 8u64 },
            Direction::NorthEast => Self { board: (self.board & !FILE_H) << 9u64 },
            Direction::East => Self { board: (self.board & !FILE_H) << 1u64 },
            Direction::SouthEast => Self { board: (self.board & !FILE_H) >> 7u64 },
            Direction::South => Self { board: self.board >> 8u64 },
            Direction::SouthWest => Self { board: (self.board & !FILE_A) >> 9u64 },
            Direction::West => Self { board: (self.board & !FILE_A) >> 1u64 },
            Direction::NorthWest => Self { board: (self.board & !FILE_A) << 7u64 },
        }
    }

    /// Left-shift of the raw value.
    pub fn shl(self, rhs: u64) -> (r: Self)
        requires
            rhs < 64,
        ensures
            r@ == (self@ << rhs),
    {
        Self { board: self.board << rhs }
    }

    /// Right-shift of the raw value.
    pub fn shr(self, rhs: u64) -> (r: Self)
        requires
            rhs < 64,
        ensures
            r@ == (self@ >> rhs),
    {
        Self { board: self.board >> rhs }
    }

    /// The set of every square on the rank of `square`.
    pub fn bitboard_of_rank(square: Square) -> (r: Self)
        requires
            square.wf(),
        ensures
            r@ == rank_bb_spec(square@),
    {
        let s = square.value();
        let rk = s >> 3u64;
        assert(rk < 8) by (bit_vector)
            requires
                s < 64,
                rk == s >> 3u64,
        ;
        Self { board: RANK_1 << (8 * rk) }
    }

    /// The set of every square on the file of `square`.
    pub fn bitboard_of_file(square: Square) -> (r: Self)
        requires
            square.wf(),
        ensures
            r@ == file_bb_spec(square@),
    {
        let s = square.value();
        let f = s & 7u64;
        assert(f < 8) by (bit_vector)
            requires
                f == s & 7u64,
        ;
        Self { board: FILE_A << f }
    }

    /// Build a square index from a rank digit (`1..8`) and a file letter
    /// (`a..h`, either case).
    pub fn rank_file_to_square(rank: char, file: char) -> (r: Result<u64, ParseError>)
        ensures
            (file_val(file) is Some && rank_val(rank) is Some) ==> r == Ok::<u64, ParseError>(
                (file_val(file)->0 + 8 * rank_val(rank)->0) as u64,
            ),
            file_val(file) is None ==> r == Err::<u64, ParseError>(
                ParseError::InvalidRankFile(file, rank),
            ),
            (file_val(file) is Some && rank_val(rank) is None) ==> r == Err::<u64, ParseError>(
                ParseError::InvalidRankFile(file, rank),
            ),
    {
        match Square::from_chars(file, rank) {
            Ok(sq) => Ok(sq.value()),
            Err(e) => Err(e),
        }
    }

    /// The member squares in ascending index order.
    pub fn iter_squares(self) -> (r: Vec<Square>)
        ensures
            forall|i: int| 0 <= i < r@.len() ==> (#[trigger] r@[i]).wf() && has_sq(
                self@,
                r@[i]@,
            ),
            forall|i: int, j: int| 0 <= i < j < r@.len() ==> r@[i]@ < r@[j]@,
            forall|s: u64| has_sq(self@, s) ==> exists|i: int|
                0 <= i < r@.len() && (#[trigger] r@[i])@ == s,
    {
        let mut out: Vec<Square> = Vec::new();
        let mut s: u64 = 0;
        while s < 64
            invariant
                s <= 64,
                forall|i: int| 0 <= i < out@.len() ==> (#[trigger] out@[i]).wf() && has_sq(
                    self@,
                    out@[i]@,
                ) && out@[i]@ < s,
                forall|i: int, j: int| 0 <= i < j < out@.len() ==> out@[i]@ < out@[j]@,
                forall|t: u64| t < s && has_sq(self@, t) ==> exists|i: int|
                    0 <= i < out@.len() && (#[trigger] out@[i])@ == t,
            decreases 64 - s,
        {
            let ghost pre = out@;
            if (self.board >> s) & 1u64 == 1u64 {
                let sq = match Square::from_index(s) {
                    Ok(q) => q,
                    Err(_) => vstd::pervasive::unreached(),
                };
                out.push(sq);
                proof {
                    assert(out@[out@.len() - 1]@ == s);
                }
            }
            proof {
                assert forall|t: u64| t < s + 1 && has_sq(self@, t) implies exists|i: int|
                    0 <= i < out@.len() && (#[trigger] out@[i])@ == t by {
                    if t < s {
                        let i = choose|i: int| 0 <= i < pre.len() && (#[trigger] pre[i])@ == t;
                        assert(out@[i]@ == t);
                    } else {
                        assert(t == s);
                        assert(out@[out@.len() - 1]@ == t);
                    }
                }
            }
            s = s + 1;
        }
        out
    }

    /// The 64 membership bits, most significant (h8) first.
    pub fn iter_bits(self) -> (r: Vec<bool>)
        ensures
            r@.len() == 64,
            forall|i: int| 0 <= i < 64 ==> r@[i] == has_sq(self@, (63 - i) as u64),
    {
        let mut out: Vec<bool> = Vec::new();
        let mut i: u64 = 0;
        while i < 64
            invariant
                i <= 64,
                out@.len() == i,
                forall|j: int| 0 <= j < i ==> out@[j] == has_sq(self@, (63 - j) as u64),
            decreases 64 - i,
        {
            out.push((self.board >> (63 - i)) & 1u64 == 1u64);
            i = i + 1;
        }
        out
    }
}

} // verus!
