//! Attack-set generation: ray walks for sliding pieces and the shift
//! patterns of pawns, knights and kings.

use vstd::prelude::*;
use crate::bitboard::{BitBoard, Direction, shift_spec, has_sq, FILE_A, FILE_H};
use crate::square::Square;
use crate::piece::{Colour, PieceType};

verus! {

/// The squares reached walking from `b` one step at a time in direction
/// `d`: each step is added to the result, and the walk stops after
/// stepping onto an occupied square (a blocker is itself attackable) or
/// off the board.  A walk starting on an occupied square reaches nothing.
pub open spec fn ray_spec(b: u64, d: Direction, occ: u64, fuel: nat) -> u64
    decreases fuel,
{
    if fuel == 0 {
        0u64
    } else if b == 0 || occ & b != 0 {
        0u64
    } else {
        shift_spec(b, d) | ray_spec(shift_spec(b, d), d, occ, (fuel - 1) as nat)
    }
}

/// A full ray walk: 64 steps of fuel is more than any walk can use.
pub open spec fn ray(b: u64, d: Direction, occ: u64) -> u64 {
    ray_spec(b, d, occ, 64)
}

/// The union of the four ray walks from square `s`.
pub open spec fn sliding_spec(dirs: Seq<Direction>, s: u64, occ: u64) -> u64 {
    ray(1u64 << s, dirs[0], occ) | ray(1u64 << s, dirs[1], occ) | ray(1u64 << s, dirs[2], occ)
        | ray(1u64 << s, dirs[3], occ)
}

/// The rook's attack set from square `s` under occupancy `occ`: the four
/// orthogonal ray walks.
pub open spec fn rook_ray(s: u64, occ: u64) -> u64 {
    ray(1u64 << s, Direction::North, occ) | ray(1u64 << s, Direction::East, occ) | ray(
        1u64 << s,
        Direction::South,
        occ,
    ) | ray(1u64 << s, Direction::West, occ)
}

/// The bishop's attack set from square `s` under occupancy `occ`: the
/// four diagonal ray walks.
pub open spec fn bishop_ray(s: u64, occ: u64) -> u64 {
    ray(1u64 << s, Direction::NorthEast, occ) | ray(1u64 << s, Direction::SouthEast, occ) | ray(
        1u64 << s,
        Direction::SouthWest,
        occ,
    ) | ray(1u64 << s, Direction::NorthWest, occ)
}

/// Three successive directional steps of a square set.
pub open spec fn step3(b: u64, d1: Direction, d2: Direction, d3: Direction) -> u64 {
    shift_spec(shift_spec(shift_spec(b, d1), d2), d3)
}

/// The knight's attack set out of the squares of `b`: the eight
/// two-steps-then-one compound jumps, edge steps vanishing.
pub open spec fn knight_spec(b: u64) -> u64 {
    step3(b, Direction::North, Direction::North, Direction::East) | step3(
        b,
        Direction::North,
        Direction::East,
        Direction::East,
    ) | step3(b, Direction::East, Direction::East, Direction::South) | step3(
        b,
        Direction::East,
        Direction::South,
        Direction::South,
    ) | step3(b, Direction::South, Direction::South, Direction::West) | step3(
        b,
        Direction::South,
        Direction::West,
        Direction::West,
    ) | step3(b, Direction::West, Direction::West, Direction::North) | step3(
        b,
        Direction::West,
        Direction::North,
        Direction::North,
    )
}

/// The king's attack set out of the squares of `b`: one step in each of
/// the eight directions.
pub open spec fn king_spec(b: u64) -> u64 {
    shift_spec(b, Direction::North) | shift_spec(b, Direction::NorthEast) | shift_spec(
        b,
        Direction::East,
    ) | shift_spec(b, Direction::SouthEast) | shift_spec(b, Direction::South) | shift_spec(
        b,
        Direction::SouthWest,
    ) | shift_spec(b, Direction::West) | shift_spec(b, Direction::NorthWest)
}

/// The squares a set of pawns of the given colour attacks: both forward
/// diagonals, white pawns attacking north, black pawns south.
pub open spec fn pawn_attack_spec(pawns: u64, colour: Colour) -> u64 {
    match colour {
        Colour::White => shift_spec(pawns, Direction::NorthEast) | shift_spec(
            pawns,
            Direction::NorthWest,
        ),
        Colour::Black => shift_spec(pawns, Direction::SouthEast) | shift_spec(
            pawns,
            Direction::SouthWest,
        ),
    }
}

/// One ray walk with explicit fuel, mirroring [`ray_spec`].
fn ray_walk(b: BitBoard, d: Direction, occ: BitBoard, fuel: u64) -> (r: BitBoard)
    ensures
        r@ == ray_spec(b@, d, occ@, fuel as nat),
    decreases fuel,
{
    if fuel == 0 {
        BitBoard::zero()
    } else if b.is_empty() || !occ.and(b).is_empty() {
        BitBoard::zero()
    } else {
        let next = b.shift(d);
        next.or(ray_walk(next, d, occ, fuel - 1))
    }
}

impl PieceType {
    /// The union of four ray walks from `square` under `occupancy`.
    pub fn sliding_attack(attack_directions: [Direction; 4], square: Square, occupancy: BitBoard)
        -> (r: BitBoard)
        requires
            square.wf(),
        ensures
            r@ == sliding_spec(attack_directions@, square@, occupancy@),
    {
        let src = BitBoard::from_unshifted(square.value());
        let r0 = ray_walk(src, attack_directions[0], occupancy, 64);
        let r1 = ray_walk(src, attack_directions[1], occupancy, 64);
        let r2 = ray_walk(src, attack_directions[2], occupancy, 64);
        let r3 = ray_walk(src, attack_directions[3], occupancy, 64);
        r0.or(r1).or(r2).or(r3)
    }

    /// The squares a set of pawns of the given colour attacks.
    pub fn pawn_attack(pawns: BitBoard, colour: Colour) -> (r: BitBoard)
        ensures
            r@ == pawn_attack_spec(pawns@, colour),
    {
        match colour {
            Colour::White => pawns.shift(Direction::NorthEast).or(
                pawns.shift(Direction::NorthWest),
            ),
            Colour::Black => pawns.shift(Direction::SouthEast).or(
                pawns.shift(Direction::SouthWest),
            ),
        }
    }
}

/// The knight attack set computed directly by shifting, used to fill the
/// knight table.
pub(crate) fn knight_attack_of(src: BitBoard) -> (r: BitBoard)
    ensures
        r@ == knight_spec(src@),
{
    let nne = src.shift(Direction::North).shift(Direction::North).shift(Direction::East);
    let nee = src.shift(Direction::North).shift(Direction::East).shift(Direction::East);
    let ees = src.shift(Direction::East).shift(Direction::East).shift(Direction::South);
    let ess = src.shift(Direction::East).shift(Direction::South).shift(Direction::South);
    let ssw = src.shift(Direction::South).shift(Direction::South).shift(Direction::West);
    let sww = src.shift(Direction::South).shift(Direction::West).shift(Direction::West);
    let wwn = src.shift(Direction::West).shift(Direction::West).shift(Direction::North);
    let wnn = src.shift(Direction::West).shift(Direction::North).shift(Direction::North);
    nne.or(nee).or(ees).or(ess).or(ssw).or(sww).or(wwn).or(wnn)
}

/// The king attack set computed directly by shifting, used to fill the
/// king table.
pub(crate) fn king_attack_of(src: BitBoard) -> (r: BitBoard)
    ensures
        r@ == king_spec(src@),
{
    src.shift(Direction::North).or(src.shift(Direction::NorthEast)).or(
        src.shift(Direction::East),
    ).or(src.shift(Direction::SouthEast)).or(src.shift(Direction::South)).or(
        src.shift(Direction::SouthWest),
    ).or(src.shift(Direction::West)).or(src.shift(Direction::NorthWest))
}


/// Whether stepping in `d` increases the square index.
pub open spec fn dir_forward(d: Direction) -> bool {
    match d {
        Direction::North => true,
        Direction::East => true,
        Direction::NorthEast => true,
        Direction::NorthWest => true,
        Direction::South => false,
        Direction::West => false,
        Direction::SouthWest => false,
        Direction::SouthEast => false,
    }
}

/// The coordinate relation one step in `d` maintains between square
/// indices: north/south steps stay on a file, east/west steps on a
/// rank, and the diagonal steps keep a coordinate difference or sum.
pub open spec fn dir_line(d: Direction, x: u64, t: u64) -> bool {
    match d {
        Direction::North => x & 7 == t & 7,
        Direction::South => x & 7 == t & 7,
        Direction::East => x >> 3u64 == t >> 3u64,
        Direction::West => x >> 3u64 == t >> 3u64,
        Direction::NorthEast => (t >> 3u64) + (x & 7) == (x >> 3u64) + (t & 7),
        Direction::SouthWest => (t >> 3u64) + (x & 7) == (x >> 3u64) + (t & 7),
        Direction::NorthWest => (t >> 3u64) + (t & 7) == (x >> 3u64) + (x & 7),
        Direction::SouthEast => (t >> 3u64) + (t & 7) == (x >> 3u64) + (x & 7),
    }
}

/// Membership distributes over union.
proof fn lemma_or_member(p: u64, q: u64, t: u64)
    by (bit_vector)
    ensures
        (((p | q) >> t) & 1u64 == 1u64) <==> (((p >> t) & 1u64 == 1u64) || ((q >> t) & 1u64
            == 1u64)),
        ((0u64 >> t) & 1u64) != 1u64,
{
}

/// The only member of a singleton is its own square.
proof fn lemma_unit_member(y: u64, t: u64)
    by (bit_vector)
    requires
        y < 64,
        (((1u64 << y) >> t) & 1u64) == 1u64,
    ensures
        t == y,
{
}

/// A single step from square `x` lands on a square one step away in
/// `d`'s coordinate relation, or falls off the board.
proof fn lemma_step_on_line(x: u64, d: Direction)
    requires
        x < 64,
    ensures
        shift_spec(1u64 << x, d) == 0 || (exists|y: u64|
            y < 64 && shift_spec(1u64 << x, d) == (1u64 << y) && #[trigger] dir_line(d, x, y)
                && (if dir_forward(d) {
                y > x
            } else {
                y < x
            })),
{
    let b = 1u64 << x;
    assert({
        &&& !FILE_H == 0x7f7f_7f7f_7f7f_7f7fu64
        &&& !FILE_A == 0xfefe_fefe_fefe_fefeu64
        &&& ((b << 8u64) == 0 || (x + 8 < 64 && (b << 8u64) == (1u64 << ((x + 8) as u64)) && x
            & 7 == ((x + 8) as u64) & 7))
        &&& ((b >> 8u64) == 0 || (x >= 8 && (b >> 8u64) == (1u64 << ((x - 8) as u64)) && x & 7
            == ((x - 8) as u64) & 7))
        &&& (((b & 0x7f7f_7f7f_7f7f_7f7fu64) << 1u64) == 0 || (x + 1 < 64 && ((b
            & 0x7f7f_7f7f_7f7f_7f7fu64) << 1u64) == (1u64 << ((x + 1) as u64)) && x >> 3u64 == ((
        x + 1) as u64) >> 3u64))
        &&& (((b & 0xfefe_fefe_fefe_fefeu64) >> 1u64) == 0 || (x >= 1 && ((b
            & 0xfefe_fefe_fefe_fefeu64) >> 1u64) == (1u64 << ((x - 1) as u64)) && x >> 3u64 == ((
        x - 1) as u64) >> 3u64))
        &&& (((b & 0x7f7f_7f7f_7f7f_7f7fu64) << 9u64) == 0 || (x + 9 < 64 && ((b
            & 0x7f7f_7f7f_7f7f_7f7fu64) << 9u64) == (1u64 << ((x + 9) as u64)) && (((x
            + 9) as u64) >> 3u64) + (x & 7) == (x >> 3u64) + (((x + 9) as u64) & 7)))
        &&& (((b & 0xfefe_fefe_fefe_fefeu64) >> 9u64) == 0 || (x >= 9 && ((b
            & 0xfefe_fefe_fefe_fefeu64) >> 9u64) == (1u64 << ((x - 9) as u64)) && (((x
            - 9) as u64) >> 3u64) + (x & 7) == (x >> 3u64) + (((x - 9) as u64) & 7)))
        &&& (((b & 0xfefe_fefe_fefe_fefeu64) << 7u64) == 0 || (x + 7 < 64 && ((b
            & 0xfefe_fefe_fefe_fefeu64) << 7u64) == (1u64 << ((x + 7) as u64)) && (((x
            + 7) as u64) >> 3u64) + (((x + 7) as u64) & 7) == (x >> 3u64) + (x & 7)))
        &&& (((b & 0x7f7f_7f7f_7f7f_7f7fu64) >> 7u64) == 0 || (x >= 7 && ((b
            & 0x7f7f_7f7f_7f7f_7f7fu64) >> 7u64) == (1u64 << ((x - 7) as u64)) && (((x
            - 7) as u64) >> 3u64) + (((x - 7) as u64) & 7) == (x >> 3u64) + (x & 7)))
    }) by (bit_vector)
        requires
            x < 64,
            b == (1u64 << x),
    ;
    match d {
        Direction::North => {
            if shift_spec(b, d) != 0 {
                assert(dir_line(d, x, (x + 8) as u64));
            }
        },
        Direction::South => {
            if shift_spec(b, d) != 0 {
                assert(dir_line(d, x, (x - 8) as u64));
            }
        },
        Direction::East => {
            if shift_spec(b, d) != 0 {
                assert(dir_line(d, x, (x + 1) as u64));
            }
        },
        Direction::West => {
            if shift_spec(b, d) != 0 {
                assert(dir_line(d, x, (x - 1) as u64));
            }
        },
        Direction::NorthEast => {
            if shift_spec(b, d) != 0 {
                assert(dir_line(d, x, (x + 9) as u64));
            }
        },
        Direction::SouthWest => {
            if shift_spec(b, d) != 0 {
                assert(dir_line(d, x, (x - 9) as u64));
            }
        },
        Direction::NorthWest => {
            if shift_spec(b, d) != 0 {
                assert(dir_line(d, x, (x + 7) as u64));
            }
        },
        Direction::SouthEast => {
            if shift_spec(b, d) != 0 {
                assert(dir_line(d, x, (x - 7) as u64));
            }
        },
    }
}

/// The coordinate relations compose along a walk.
proof fn lemma_dir_line_trans(d: Direction, a: u64, m: u64, t: u64)
    requires
        dir_line(d, a, m),
        dir_line(d, m, t),
    ensures
        dir_line(d, a, t),
{
}

/// Every square a ray walk from `x` reaches shares `d`'s line with `x`:
/// a walk can only move along one rank, file or diagonal.
pub proof fn lemma_ray_on_line(x: u64, d: Direction, occ: u64, fuel: nat, t: u64)
    requires
        x < 64,
        has_sq(ray_spec(1u64 << x, d, occ, fuel), t),
    ensures
        dir_line(d, x, t),
        dir_forward(d) ==> t > x,
        !dir_forward(d) ==> t < x,
    decreases fuel,
{
    let b = 1u64 << x;
    assert(b != 0) by (bit_vector)
        requires
            x < 64,
            b == (1u64 << x),
    ;
    lemma_or_member(0, 0, t);
    if fuel == 0 || occ & b != 0 {
        assert(ray_spec(b, d, occ, fuel) == 0);
        assert(false);
    } else {
        let sh = shift_spec(b, d);
        let rest = ray_spec(sh, d, occ, (fuel - 1) as nat);
        lemma_or_member(sh, rest, t);
        lemma_step_on_line(x, d);
        if sh == 0 {
            assert(ray_spec(0, d, occ, (fuel - 1) as nat) == 0);
            assert(false);
        } else {
            let y = choose|y: u64|
                y < 64 && sh == (1u64 << y) && #[trigger] dir_line(d, x, y) && (if dir_forward(
                    d,
                ) {
                    y > x
                } else {
                    y < x
                });
            if (sh >> t) & 1u64 == 1u64 {
                lemma_unit_member(y, t);
            } else {
                lemma_ray_on_line(y, d, occ, (fuel - 1) as nat, t);
                lemma_dir_line_trans(d, x, y, t);
            }
        }
    }
}


} // verus!
