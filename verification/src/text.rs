//! Textual forms of the library's values, and the one string-building
//! primitive they rely on.

use vstd::prelude::*;
use crate::bitboard::{BitBoard, has_sq};

verus! {

/// Relies on `String::push`: appends exactly the given character to the
/// end of the string.
pub assume_specification[ String::push ](s: &mut String, ch: char)
    ensures
        final(s)@ == old(s)@.push(ch),
;

/// A `String` holding exactly the given characters.
pub fn string_of(chars: &Vec<char>) -> (r: String)
    ensures
        r@ == chars@,
{
    let mut out = String::new();
    let mut i: usize = 0;
    let n = chars.len();
    while i < n
        invariant
            i <= n,
            n == chars@.len(),
            out@ == chars@.take(i as int),
        decreases n - i,
    {
        out.push(chars[i]);
        proof {
            assert(chars@.take(i + 1) =~= chars@.take(i as int).push(chars@[i as int]));
        }
        i = i + 1;
    }
    proof {
        assert(chars@.take(n as int) =~= chars@);
    }
    out
}

/// A `String` of one character.
pub fn string_of_char(c: char) -> (r: String)
    ensures
        r@ =~= seq![c],
{
    let mut out = String::new();
    out.push(c);
    out
}

/// The character at position `i` of the diagnostic grid of `b`: two
/// spaces and the file letters, then for each of the eight rows a
/// newline, the rank label, and a space before each cell, `x` for a
/// member square and `.` for the rest.
pub open spec fn grid_char(b: u64, i: int) -> char {
    if i < 2 {
        ' '
    } else if i < 18 {
        if (i - 2) % 2 == 0 {
            file_letter(((i - 2) / 2) as u64)
        } else {
            ' '
        }
    } else {
        let k = (i - 18) / 18;
        let o = (i - 18) % 18;
        if o == 0 {
            '\n'
        } else if o == 1 {
            rank_digit((8 - k) as u64)
        } else if (o - 2) % 2 == 0 {
            ' '
        } else {
            if has_sq(b, ((7 - k) * 8 + ((o - 3) / 2)) as u64) {
                'x'
            } else {
                '.'
            }
        }
    }
}

/// The header letter of file `f`.
pub open spec fn file_letter(f: u64) -> char {
    if f == 0 {
        'A'
    } else if f == 1 {
        'B'
    } else if f == 2 {
        'C'
    } else if f == 3 {
        'D'
    } else if f == 4 {
        'E'
    } else if f == 5 {
        'F'
    } else if f == 6 {
        'G'
    } else {
        'H'
    }
}

/// The row label of rank `r`, ranks counted from one.
pub open spec fn rank_digit(r: u64) -> char {
    if r == 1 {
        '1'
    } else if r == 2 {
        '2'
    } else if r == 3 {
        '3'
    } else if r == 4 {
        '4'
    } else if r == 5 {
        '5'
    } else if r == 6 {
        '6'
    } else if r == 7 {
        '7'
    } else {
        '8'
    }
}

/// The character standing for hex digit `d`.
pub open spec fn hex_digit(d: u64) -> char {
    if d == 0 {
        '0'
    } else if d == 1 {
        '1'
    } else if d == 2 {
        '2'
    } else if d == 3 {
        '3'
    } else if d == 4 {
        '4'
    } else if d == 5 {
        '5'
    } else if d == 6 {
        '6'
    } else if d == 7 {
        '7'
    } else if d == 8 {
        '8'
    } else if d == 9 {
        '9'
    } else if d == 10 {
        'a'
    } else if d == 11 {
        'b'
    } else if d == 12 {
        'c'
    } else if d == 13 {
        'd'
    } else if d == 14 {
        'e'
    } else {
        'f'
    }
}

impl BitBoard {
    /// The fixed-width hexadecimal form of the raw value: `0x` followed
    /// by sixteen lowercase hex digits, most significant first.
    pub fn to_hex(self) -> (r: String)
        ensures
            r@.len() == 18,
            r@[0] == '0',
            r@[1] == 'x',
            forall|i: int| 0 <= i < 16 ==> #[trigger] r@[2 + i] == hex_digit(
                (self@ >> ((60 - 4 * i) as u64)) & 0xf,
            ),
    {
        let mut out = String::new();
        out.push('0');
        out.push('x');
        let mut i: u64 = 0;
        while i < 16
            invariant
                i <= 16,
                out@.len() == 2 + i,
                out@[0] == '0',
                out@[1] == 'x',
                forall|j: int| 0 <= j < i ==> #[trigger] out@[2 + j] == hex_digit(
                    (self@ >> ((60 - 4 * j) as u64)) & 0xf,
                ),
            decreases 16 - i,
        {
            let d = (self.value() >> (60 - 4 * i)) & 0xf;
            proof {
                let v = self@;
                assert((v >> ((60 - 4 * i as int) as u64)) & 0xf < 16) by (bit_vector);
            }
            let c = if d == 0 {
                '0'
            } else if d == 1 {
                '1'
            } else if d == 2 {
                '2'
            } else if d == 3 {
                '3'
            } else if d == 4 {
                '4'
            } else if d == 5 {
                '5'
            } else if d == 6 {
                '6'
            } else if d == 7 {
                '7'
            } else if d == 8 {
                '8'
            } else if d == 9 {
                '9'
            } else if d == 10 {
                'a'
            } else if d == 11 {
                'b'
            } else if d == 12 {
                'c'
            } else if d == 13 {
                'd'
            } else if d == 14 {
                'e'
            } else {
                'f'
            };
            out.push(c);
            i = i + 1;
        }
        out
    }

    /// The 8x8 diagnostic grid: a file header, then the ranks from 8
    /// down to 1, `x` for occupied squares and `.` for empty ones.
    pub fn to_grid(self) -> (r: String)
        ensures
            r@.len() == 18 + 8 * 18,
            forall|i: int| 0 <= i < r@.len() ==> #[trigger] r@[i] == grid_char(self@, i),
    {
        let mut out = String::new();
        out.push(' ');
        out.push(' ');
        let mut f: u64 = 0;
        while f < 8
            invariant
                f <= 8,
                out@.len() == 2 + 2 * f,
                forall|i: int| 0 <= i < out@.len() ==> #[trigger] out@[i] == grid_char(self@, i),
            decreases 8 - f,
        {
            let c = if f == 0 {
                'A'
            } else if f == 1 {
                'B'
            } else if f == 2 {
                'C'
            } else if f == 3 {
                'D'
            } else if f == 4 {
                'E'
            } else if f == 5 {
                'F'
            } else if f == 6 {
                'G'
            } else {
                'H'
            };
            out.push(c);
            out.push(' ');
            f = f + 1;
        }
        let mut rank: u64 = 8;
        while rank > 0
            invariant
                rank <= 8,
                out@.len() == 18 + (8 - rank) * 18,
                forall|i: int| 0 <= i < out@.len() ==> #[trigger] out@[i] == grid_char(self@, i),
            decreases rank,
        {
            out.push('\n');
            let c = if rank == 1 {
                '1'
            } else if rank == 2 {
                '2'
            } else if rank == 3 {
                '3'
            } else if rank == 4 {
                '4'
            } else if rank == 5 {
                '5'
            } else if rank == 6 {
                '6'
            } else if rank == 7 {
                '7'
            } else {
                '8'
            };
            out.push(c);
            let mut file: u64 = 0;
            while file < 8
                invariant
                    1 <= rank <= 8,
                    file <= 8,
                    out@.len() == 18 + (8 - rank) * 18 + 2 + 2 * file,
                    forall|i: int| 0 <= i < out@.len() ==> #[trigger] out@[i] == grid_char(
                        self@,
                        i,
                    ),
                decreases 8 - file,
            {
                out.push(' ');
                let s = (rank - 1) * 8 + file;
                if (self.value() >> s) & 1 == 1 {
                    out.push('x');
                } else {
                    out.push('.');
                }
                file = file + 1;
            }
            rank = rank - 1;
        }
        out
    }

}

} // verus!
