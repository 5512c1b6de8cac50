//! A validated square coordinate: an index in `[0, 64)`.

use vstd::prelude::*;
use crate::bitboard::{BitBoard, Direction, shift_spec, has_sq};

verus! {

/// Errors from constructing a [`Square`] out of external data.
#[derive(Debug, PartialEq, Eq, Structural)]
pub enum ParseError {
    /// The square index was out of range (must be `0..64`).
    InvalidSquare(u64),
    /// The (file, rank) character pair was not `a..h` / `1..8`.
    InvalidRankFile(char, char),
    /// The bitboard did not contain exactly one set square.
    BitBoardNotUnit,
}

/// Whether `b` is a singleton set: exactly one bit set.
pub open spec fn is_unit(b: u64) -> bool {
    b != 0 && b & (b - 1) as u64 == 0
}

/// The value a file letter denotes, `a`/`A` being file 0, if any.
pub open spec fn file_val(c: char) -> Option<u64> {
    if c == 'A' || c == 'a' {
        Some(0u64)
    } else if c == 'B' || c == 'b' {
        Some(1u64)
    } else if c == 'C' || c == 'c' {
        Some(2u64)
    } else if c == 'D' || c == 'd' {
        Some(3u64)
    } else if c == 'E' || c == 'e' {
        Some(4u64)
    } else if c == 'F' || c == 'f' {
        Some(5u64)
    } else if c == 'G' || c == 'g' {
        Some(6u64)
    } else if c == 'H' || c == 'h' {
        Some(7u64)
    } else {
        None
    }
}

/// The value a rank digit denotes, `1` being rank 0, if any.
pub open spec fn rank_val(c: char) -> Option<u64> {
    if c == '1' {
        Some(0u64)
    } else if c == '2' {
        Some(1u64)
    } else if c == '3' {
        Some(2u64)
    } else if c == '4' {
        Some(3u64)
    } else if c == '5' {
        Some(4u64)
    } else if c == '6' {
        Some(5u64)
    } else if c == '7' {
        Some(6u64)
    } else if c == '8' {
        Some(7u64)
    } else {
        None
    }
}

/// A board square: an integer in `[0, 64)`; file is `s & 7`, rank `s >> 3`.
#[derive(Copy, Clone, Debug, PartialEq, Eq, Structural)]
pub struct Square(u64);

impl View for Square {
    type V = u64;

    closed spec fn view(&self) -> u64 {
        self.0
    }
}

impl Square {
    /// The range invariant: the index is a valid square.
    pub open spec fn wf(self) -> bool {
        self@ < 64
    }

    /// The spec-level constructor: the square with index `v`.
    pub closed spec fn mk(v: u64) -> Square {
        Square(v)
    }

    /// Whether `sq` is a valid square index.
    pub fn valid_square(sq: u64) -> (r: bool)
        ensures
            r == (sq < 64),
    {
        sq < 64
    }

    /// The square's index.
    pub fn value(self) -> (r: u64)
        ensures
            r == self@,
    {
        self.0
    }

    /// Validate an index as a square.
    pub fn from_index(value: u64) -> (r: Result<Square, ParseError>)
        ensures
            value < 64 ==> (r is Ok && r->Ok_0.wf() && r->Ok_0@ == value && r->Ok_0
                == Square::mk(value)),
            value >= 64 ==> r == Err::<Square, ParseError>(ParseError::InvalidSquare(value)),
    {
        if value < 64 {
            Ok(Square(value))
        } else {
            Err(ParseError::InvalidSquare(value))
        }
    }

    /// Build a square from a file letter (`a..h`, either case) and a rank
    /// digit (`1..8`).
    pub fn from_chars(file: char, rank: char) -> (r: Result<Square, ParseError>)
        ensures
            (file_val(file) is Some && rank_val(rank) is Some) ==> (r is Ok && r->Ok_0.wf()
                && r->Ok_0@ == file_val(file)->0 + 8 * rank_val(rank)->0),
            (file_val(file) is None || rank_val(rank) is None) ==> r == Err::<Square, ParseError>(
                ParseError::InvalidRankFile(file, rank),
            ),
    {
        let f: u64 = if file == 'A' || file == 'a' {
            0
        } else if file == 'B' || file == 'b' {
            1
        } else if file == 'C' || file == 'c' {
            2
        } else if file == 'D' || file == 'd' {
            3
        } else if file == 'E' || file == 'e' {
            4
        } else if file == 'F' || file == 'f' {
            5
        } else if file == 'G' || file == 'g' {
            6
        } else if file == 'H' || file == 'h' {
            7
        } else {
            return Err(ParseError::InvalidRankFile(file, rank));
        };
        let rk: u64 = if rank == '1' {
            0
        } else if rank == '2' {
            1
        } else if rank == '3' {
            2
        } else if rank == '4' {
            3
        } else if rank == '5' {
            4
        } else if rank == '6' {
            5
        } else if rank == '7' {
            6
        } else if rank == '8' {
            7
        } else {
            return Err(ParseError::InvalidRankFile(file, rank));
        };
        Ok(Square(f + 8 * rk))
    }

    /// The square a singleton bitboard denotes; `BitBoardNotUnit` when the
    /// board holds more than one square.
    pub fn from_bitboard(b: BitBoard) -> (r: Result<Square, ParseError>)
        requires
            b@ != 0,
        ensures
            is_unit(b@) ==> (r is Ok && r->Ok_0.wf() && b@ == (1u64 << r->Ok_0@)),
            !is_unit(b@) ==> r == Err::<Square, ParseError>(ParseError::BitBoardNotUnit),
    {
        let raw = b.value();
        if raw & raw.wrapping_sub(1) != 0 {
            assert(raw & (raw - 1) as u64 != 0) by (bit_vector)
                requires
                    raw != 0,
                    raw & raw.wrapping_sub(1) != 0,
            ;
            return Err(ParseError::BitBoardNotUnit);
        }
        let tz = raw.trailing_zeros();
        proof {
            vstd::std_specs::bits::axiom_u64_trailing_zeros(raw);
            let t = tz as u64;
            assert(raw == (1u64 << t)) by (bit_vector)
                requires
                    raw != 0,
                    raw & raw.wrapping_sub(1) == 0,
                    t < 64,
                    (raw >> t) & 1u64 == 1u64,
            ;
        }
        Ok(Square(tz as u64))
    }

    /// Step the square one move in `direction`; the step must stay on the
    /// board.
    pub fn shift(self, direction: Direction) -> (r: Square)
        requires
            self.wf(),
            shift_spec(1u64 << self@, direction) != 0,
        ensures
            r.wf(),
            (1u64 << r@) == shift_spec(1u64 << self@, direction),
    {
        let bb = BitBoard::from_unshifted(self.0).shift(direction);
        proof {
            lemma_shift_of_unit(self@, direction);
        }
        match Square::from_bitboard(bb) {
            Ok(sq) => sq,
            Err(_) => vstd::pervasive::unreached(),
        }
    }
}

/// A one-square set stepped in any direction stays a one-square set or
/// vanishes off the board edge.
proof fn lemma_shift_of_unit(s: u64, d: Direction)
    requires
        s < 64,
    ensures
        shift_spec(1u64 << s, d) == 0 || is_unit(shift_spec(1u64 << s, d)),
{
    let b = 1u64 << s;
    assert({
        &&& !crate::bitboard::FILE_H == 0x7f7f_7f7f_7f7f_7f7fu64
        &&& !crate::bitboard::FILE_A == 0xfefe_fefe_fefe_fefeu64
        &&& ((b << 8u64) == 0 || ((b << 8u64) != 0 && (b << 8u64) & ((b << 8u64) - 1) as u64
            == 0))
        &&& (((b & 0x7f7f_7f7f_7f7f_7f7fu64) << 9u64) == 0 || (((b & 0x7f7f_7f7f_7f7f_7f7fu64)
            << 9u64) != 0 && ((b & 0x7f7f_7f7f_7f7f_7f7fu64) << 9u64) & (((b
            & 0x7f7f_7f7f_7f7f_7f7fu64) << 9u64) - 1) as u64 == 0))
        &&& (((b & 0x7f7f_7f7f_7f7f_7f7fu64) << 1u64) == 0 || (((b & 0x7f7f_7f7f_7f7f_7f7fu64)
            << 1u64) != 0 && ((b & 0x7f7f_7f7f_7f7f_7f7fu64) << 1u64) & (((b
            & 0x7f7f_7f7f_7f7f_7f7fu64) << 1u64) - 1) as u64 == 0))
        &&& (((b & 0x7f7f_7f7f_7f7f_7f7fu64) >> 7u64) == 0 || (((b & 0x7f7f_7f7f_7f7f_7f7fu64)
            >> 7u64) != 0 && ((b & 0x7f7f_7f7f_7f7f_7f7fu64) >> 7u64) & (((b
            & 0x7f7f_7f7f_7f7f_7f7fu64) >> 7u64) - 1) as u64 == 0))
        &&& ((b >> 8u64) == 0 || ((b >> 8u64) != 0 && (b >> 8u64) & ((b >> 8u64) - 1) as u64
            == 0))
        &&& (((b & 0xfefe_fefe_fefe_fefeu64) >> 9u64) == 0 || (((b & 0xfefe_fefe_fefe_fefeu64)
            >> 9u64) != 0 && ((b & 0xfefe_fefe_fefe_fefeu64) >> 9u64) & (((b
            & 0xfefe_fefe_fefe_fefeu64) >> 9u64) - 1) as u64 == 0))
        &&& (((b & 0xfefe_fefe_fefe_fefeu64) >> 1u64) == 0 || (((b & 0xfefe_fefe_fefe_fefeu64)
            >> 1u64) != 0 && ((b & 0xfefe_fefe_fefe_fefeu64) >> 1u64) & (((b
            & 0xfefe_fefe_fefe_fefeu64) >> 1u64) - 1) as u64 == 0))
        &&& (((b & 0xfefe_fefe_fefe_fefeu64) << 7u64) == 0 || (((b & 0xfefe_fefe_fefe_fefeu64)
            << 7u64) != 0 && ((b & 0xfefe_fefe_fefe_fefeu64) << 7u64) & (((b
            & 0xfefe_fefe_fefe_fefeu64) << 7u64) - 1) as u64 == 0))
    }) by (bit_vector)
        requires
            s < 64,
            b == (1u64 << s),
    ;
}

/// Each square's singleton set has exactly one member: that square.
/// Extracting the lowest set square of `singleton(s)` therefore gives
/// `s` back, since no other index can denote the same singleton.
pub proof fn lemma_singleton_roundtrip(s: u64)
    requires
        s < 64,
    ensures
        is_unit(1u64 << s),
        forall|t: u64| t < 64 ==> (has_sq(1u64 << s, t) <==> t == s),
        forall|r: u64| r < 64 && (1u64 << r) == (1u64 << s) ==> r == s,
{
    assert((1u64 << s) != 0 && (1u64 << s) & ((1u64 << s) - 1) as u64 == 0) by (bit_vector)
        requires
            s < 64,
    ;
    assert(forall|t: u64| t < 64 ==> ((((1u64 << s) >> t) & 1u64 == 1u64) <==> t == s))
        by (bit_vector)
        requires
            s < 64,
    ;
    assert(forall|r: u64| r < 64 && (1u64 << r) == (1u64 << s) ==> r == s) by (bit_vector)
        requires
            s < 64,
    ;
}

/// The Chebyshev distance between two squares: the greater of the rank
/// distance and the file distance.
pub open spec fn dist_spec(a: u64, b: u64) -> u64 {
    let fa = a & 7;
    let fb = b & 7;
    let ra = a >> 3u64;
    let rb = b >> 3u64;
    let fd = if fa >= fb {
        fa - fb
    } else {
        fb - fa
    };
    let rd = if ra >= rb {
        ra - rb
    } else {
        rb - ra
    };
    (if rd >= fd {
        rd
    } else {
        fd
    }) as u64
}

/// The Chebyshev distance between two squares.
pub fn distance(a: Square, b: Square) -> (r: u8)
    requires
        a.wf(),
        b.wf(),
    ensures
        r as u64 == dist_spec(a@, b@),
        r <= 7,
{
    let av = a.value();
    let bv = b.value();
    let fa = av & 7;
    let fb = bv & 7;
    let ra = av >> 3u64;
    let rb = bv >> 3u64;
    assert(fa < 8 && fb < 8 && ra < 8 && rb < 8) by (bit_vector)
        requires
            av < 64,
            bv < 64,
            fa == av & 7,
            fb == bv & 7,
            ra == av >> 3u64,
            rb == bv >> 3u64,
    ;
    let fd = if fa >= fb {
        fa - fb
    } else {
        fb - fa
    };
    let rd = if ra >= rb {
        ra - rb
    } else {
        rb - ra
    };
    (if rd >= fd {
        rd
    } else {
        fd
    }) as u8
}

} // verus!
