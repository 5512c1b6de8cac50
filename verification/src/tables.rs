//! The process-wide attack tables: non-sliding attack sets per square,
//! the magic-bitboard sliding tables, the 64x64 line-alignment table and
//! the 64x64 square-distance table.
//!
//! All of them are computed once by [`AttackTables::new`] and read-only
//! afterwards; callers pass the finished tables to the lookup functions.

use vstd::prelude::*;
use crate::bitboard::{BitBoard, Direction, has_sq, FULL};
use crate::square::{Square, distance, dist_spec};
use crate::piece::PieceType;
use crate::attacks::{knight_spec, king_spec, rook_ray, bishop_ray, knight_attack_of,
    king_attack_of};
use crate::magic::{SlidingRook, SlidingBishop, rook_dirs, bishop_dirs, relevant_mask,
    magic_index, slot_ok};

verus! {

/// Membership of square `s` in set `b`, phrased as the mask test the
/// executable code uses.
pub proof fn lemma_test_bit(b: u64, s: u64)
    by (bit_vector)
    requires
        s < 64,
    ensures
        (b & (1u64 << s) != 0) <==> ((b >> s) & 1u64 == 1u64),
{
}

/// Intersecting with a mask twice is intersecting once; zero is
/// absorbing for intersection.
pub(crate) proof fn lemma_mask_idem(a: u64, m: u64)
    by (bit_vector)
    ensures
        (a & m) & m == a & m,
        0u64 & m == 0u64,
        m & 0u64 == 0u64,
{
}

/// Union is associative.
proof fn lemma_or_assoc(x: u64, p: u64, q: u64)
    by (bit_vector)
    ensures
        x | (p | q) == (x | p) | q,
{
}

/// The full line through two aligned squares: their shared diagonal when
/// they are bishop-aligned, else their shared rank or file when they are
/// rook-aligned, endpoints included; empty when they share no line.
pub open spec fn line_spec(s1: u64, s2: u64) -> u64 {
    if has_sq(bishop_ray(s1, 0), s2) {
        (bishop_ray(s1, 0) & bishop_ray(s2, 0)) | (1u64 << s1) | (1u64 << s2)
    } else if has_sq(rook_ray(s1, 0), s2) {
        (rook_ray(s1, 0) & rook_ray(s2, 0)) | (1u64 << s1) | (1u64 << s2)
    } else {
        0u64
    }
}

/// The set of squares strictly between two aligned squares: the shared
/// line cut down to the open interval between them.
pub open spec fn line_between_spec(a: u64, b: u64) -> u64 {
    let l = line_spec(a, b) & ((FULL << a) ^ (FULL << b));
    if l == 0 {
        0u64
    } else {
        l & (l - 1) as u64
    }
}

/// The precomputed attack and geometry tables.
pub struct AttackTables {
    /// Per-square knight attack sets.
    pub knight: Vec<BitBoard>,
    /// Per-square king attack sets.
    pub king: Vec<BitBoard>,
    /// The rook magic tables.
    pub rook: SlidingRook,
    /// The bishop magic tables.
    pub bishop: SlidingBishop,
    /// The 64x64 line-alignment table, flattened as `a * 64 + b`.
    pub line: Vec<BitBoard>,
    /// The 64x64 Chebyshev-distance table, flattened as `a * 64 + b`.
    pub dist: Vec<u8>,
}

impl AttackTables {
    /// Every table holds exactly the value its defining formula gives.
    pub open spec fn wf(self) -> bool {
        &&& self.knight@.len() == 64
        &&& forall|s: u64| s < 64 ==> (#[trigger] self.knight@[s as int])@ == knight_spec(
            1u64 << s,
        )
        &&& self.king@.len() == 64
        &&& forall|s: u64| s < 64 ==> (#[trigger] self.king@[s as int])@ == king_spec(1u64 << s)
        &&& self.rook.wf()
        &&& self.bishop.wf()
        &&& self.line@.len() == 4096
        &&& forall|a: u64, b: u64| a < 64 && b < 64 ==> (#[trigger] self.line@[a * 64 + b])@
            == line_spec(a, b)
        &&& self.dist@.len() == 4096
        &&& forall|a: u64, b: u64| a < 64 && b < 64 ==> (#[trigger] self.dist@[a * 64 + b])
            == dist_spec(a, b)
    }

    /// Compute every table; `None` only when the magic constants fail
    /// their construction-time collision checks.
    pub fn new() -> (r: Option<AttackTables>)
        ensures
            r matches Some(t) ==> t.wf(),
            (crate::magic::magics_ok(rook_dirs(), crate::magic::rook_magics(), 0x19000)
                && crate::magic::magics_ok(
                bishop_dirs(),
                crate::magic::bishop_magics(),
                0x1480,
            )) ==> r is Some,
    {
        let rook = match SlidingRook::build() {
            Some(t) => t,
            None => {
                return None;
            },
        };
        let bishop = match SlidingBishop::build() {
            Some(t) => t,
            None => {
                return None;
            },
        };
        let knight = knight_table();
        let king = king_table();
        let line = line_table(&rook, &bishop);
        let dist = dist_table();
        Some(AttackTables { knight, king, rook, bishop, line, dist })
    }

    /// The Chebyshev distance between two squares, from the table.
    pub fn square_distance(&self, a: Square, b: Square) -> (r: u8)
        requires
            self.wf(),
            a.wf(),
            b.wf(),
        ensures
            r == dist_spec(a@, b@),
    {
        self.dist[(a.value() * 64 + b.value()) as usize]
    }
}

impl SlidingRook {
    /// The rook attack set from `square` under `occupancy`, by hashed
    /// table lookup.
    pub fn attack(&self, square: Square, occupancy: BitBoard) -> (r: BitBoard)
        requires
            self.wf(),
            square.wf(),
        ensures
            r@ == rook_ray(square@, occupancy@ & relevant_mask(rook_dirs(), square@)),
    {
        let m = self.magic[square.value() as usize];
        let masked = occupancy.and(m.mask()).value();
        let idx = masked.wrapping_mul(m.magic()) >> m.shift();
        proof {
            lemma_mask_idem(occupancy@, m@.mask);
            assert(masked & m@.mask == masked);
            assert(m@ == self.magic@[square@ as int]@);
            assert(m@.mask == relevant_mask(rook_dirs(), square@));
            assert(m@.shift < 64);
            assert(magic_index(m@, masked) == idx);
            assert(slot_ok(self.table@, m@, square@, masked, rook_dirs()));
            assert(rook_dirs()[0] == Direction::North);
            assert(rook_dirs()[1] == Direction::East);
            assert(rook_dirs()[2] == Direction::South);
            assert(rook_dirs()[3] == Direction::West);
        }
        let n = self.table.len();
        proof {
            assert(m@.off + magic_index(m@, masked) < n);
        }
        self.table[(m.table() as u64 + idx) as usize]
    }
}

impl SlidingBishop {
    /// The bishop attack set from `square` under `occupancy`, by hashed
    /// table lookup.
    pub fn attack(&self, square: Square, occupancy: BitBoard) -> (r: BitBoard)
        requires
            self.wf(),
            square.wf(),
        ensures
            r@ == bishop_ray(square@, occupancy@ & relevant_mask(bishop_dirs(), square@)),
    {
        let m = self.magic[square.value() as usize];
        let masked = occupancy.and(m.mask()).value();
        let idx = masked.wrapping_mul(m.magic()) >> m.shift();
        proof {
            lemma_mask_idem(occupancy@, m@.mask);
            assert(masked & m@.mask == masked);
            assert(m@ == self.magic@[square@ as int]@);
            assert(m@.mask == relevant_mask(bishop_dirs(), square@));
            assert(m@.shift < 64);
            assert(magic_index(m@, masked) == idx);
            assert(slot_ok(self.table@, m@, square@, masked, bishop_dirs()));
            assert(bishop_dirs()[0] == Direction::NorthEast);
            assert(bishop_dirs()[1] == Direction::SouthEast);
            assert(bishop_dirs()[2] == Direction::SouthWest);
            assert(bishop_dirs()[3] == Direction::NorthWest);
        }
        let n = self.table.len();
        proof {
            assert(m@.off + magic_index(m@, masked) < n);
        }
        self.table[(m.table() as u64 + idx) as usize]
    }
}

impl PieceType {
    /// The knight attack set of `square`, from the table.
    pub fn knight_attack(tables: &AttackTables, square: Square) -> (r: BitBoard)
        requires
            tables.wf(),
            square.wf(),
        ensures
            r@ == knight_spec(1u64 << square@),
    {
        tables.knight[square.value() as usize]
    }

    /// The king attack set of `square`, from the table.
    pub fn king_attack(tables: &AttackTables, square: Square) -> (r: BitBoard)
        requires
            tables.wf(),
            square.wf(),
        ensures
            r@ == king_spec(1u64 << square@),
    {
        tables.king[square.value() as usize]
    }

    /// The rook attack set of `square` under `occupancy`, by magic
    /// lookup.
    pub fn rook_attack(tables: &AttackTables, square: Square, occupancy: BitBoard) -> (r: BitBoard)
        requires
            tables.wf(),
            square.wf(),
        ensures
            r@ == rook_ray(square@, occupancy@ & relevant_mask(rook_dirs(), square@)),
    {
        tables.rook.attack(square, occupancy)
    }

    /// The bishop attack set of `square` under `occupancy`, by magic
    /// lookup.
    pub fn bishop_attack(tables: &AttackTables, square: Square, occupancy: BitBoard) -> (r:
        BitBoard)
        requires
            tables.wf(),
            square.wf(),
        ensures
            r@ == bishop_ray(square@, occupancy@ & relevant_mask(bishop_dirs(), square@)),
    {
        tables.bishop.attack(square, occupancy)
    }

    /// The queen attack set: rook and bishop lookups combined.
    pub fn queen_attack(tables: &AttackTables, square: Square, occupancy: BitBoard) -> (r:
        BitBoard)
        requires
            tables.wf(),
            square.wf(),
        ensures
            r@ == (rook_ray(square@, occupancy@ & relevant_mask(rook_dirs(), square@)) | bishop_ray(
                square@,
                occupancy@ & relevant_mask(bishop_dirs(), square@),
            )),
    {
        PieceType::rook_attack(tables, square, occupancy).or(
            PieceType::bishop_attack(tables, square, occupancy),
        )
    }
}

/// The squares strictly between `a` and `b` along their shared rank,
/// file or diagonal; empty when they share none.
pub fn line_between(tables: &AttackTables, a: Square, b: Square) -> (r: BitBoard)
    requires
        tables.wf(),
        a.wf(),
        b.wf(),
    ensures
        r@ == line_between_spec(a@, b@),
{
    let full = BitBoard::from_shifted(FULL);
    let l = tables.line[(a.value() * 64 + b.value()) as usize].and(
        full.shl(a.value()).xor(full.shl(b.value())),
    );
    let lv = l.value();
    let r = lv & lv.wrapping_sub(1);
    proof {
        if lv == 0 {
            assert(r == 0u64) by (bit_vector)
                requires
                    lv == 0,
                    r == lv & lv.wrapping_sub(1),
            ;
        }
    }
    BitBoard::from_shifted(r)
}

/// Two squares share a line exactly when they stand on one rank, one
/// file, one diagonal or one anti-diagonal.
pub open spec fn same_line(a: u64, b: u64) -> bool {
    ||| a >> 3u64 == b >> 3u64
    ||| a & 7 == b & 7
    ||| (b >> 3u64) + (a & 7) == (a >> 3u64) + (b & 7)
    ||| (b >> 3u64) + (b & 7) == (a >> 3u64) + (a & 7)
}

/// Membership distributes over union.
proof fn lemma_union_member(p: u64, q: u64, t: u64)
    by (bit_vector)
    ensures
        (((p | q) >> t) & 1u64 == 1u64) <==> (((p >> t) & 1u64 == 1u64) || ((q >> t) & 1u64
            == 1u64)),
{
}

/// `line_between` is empty whenever its two squares share no rank, file
/// or diagonal: a ray walk from one can then never reach the other, so
/// the alignment table holds the empty set for the pair.
pub proof fn lemma_line_between_no_shared_line(a: u64, b: u64)
    requires
        a < 64,
        b < 64,
        !same_line(a, b),
    ensures
        line_between_spec(a, b) == 0,
{
    let src = 1u64 << a;
    let rn = crate::attacks::ray(src, Direction::North, 0);
    let re = crate::attacks::ray(src, Direction::East, 0);
    let rs = crate::attacks::ray(src, Direction::South, 0);
    let rw = crate::attacks::ray(src, Direction::West, 0);
    if has_sq(rook_ray(a, 0), b) {
        lemma_union_member(rn | re | rs, rw, b);
        lemma_union_member(rn | re, rs, b);
        lemma_union_member(rn, re, b);
        if (rn >> b) & 1u64 == 1u64 {
            crate::attacks::lemma_ray_on_line(a, Direction::North, 0, 64, b);
        } else if (re >> b) & 1u64 == 1u64 {
            crate::attacks::lemma_ray_on_line(a, Direction::East, 0, 64, b);
        } else if (rs >> b) & 1u64 == 1u64 {
            crate::attacks::lemma_ray_on_line(a, Direction::South, 0, 64, b);
        } else {
            crate::attacks::lemma_ray_on_line(a, Direction::West, 0, 64, b);
        }
        assert(false);
    }
    let dne = crate::attacks::ray(src, Direction::NorthEast, 0);
    let dse = crate::attacks::ray(src, Direction::SouthEast, 0);
    let dsw = crate::attacks::ray(src, Direction::SouthWest, 0);
    let dnw = crate::attacks::ray(src, Direction::NorthWest, 0);
    if has_sq(bishop_ray(a, 0), b) {
        lemma_union_member(dne | dse | dsw, dnw, b);
        lemma_union_member(dne | dse, dsw, b);
        lemma_union_member(dne, dse, b);
        if (dne >> b) & 1u64 == 1u64 {
            crate::attacks::lemma_ray_on_line(a, Direction::NorthEast, 0, 64, b);
        } else if (dse >> b) & 1u64 == 1u64 {
            crate::attacks::lemma_ray_on_line(a, Direction::SouthEast, 0, 64, b);
        } else if (dsw >> b) & 1u64 == 1u64 {
            crate::attacks::lemma_ray_on_line(a, Direction::SouthWest, 0, 64, b);
        } else {
            crate::attacks::lemma_ray_on_line(a, Direction::NorthWest, 0, 64, b);
        }
        assert(false);
    }
    lemma_line_between_unaligned(a, b);
}

/// Squares that share no rank, file or diagonal line have nothing
/// between them: when `b` is on none of `a`'s empty-board rook or bishop
/// rays, the strictly-between set is empty.
pub proof fn lemma_line_between_unaligned(a: u64, b: u64)
    requires
        a < 64,
        b < 64,
        !has_sq(rook_ray(a, 0), b),
        !has_sq(bishop_ray(a, 0), b),
    ensures
        line_between_spec(a, b) == 0,
{
    assert(line_spec(a, b) == 0);
    assert(0u64 & ((FULL << a) ^ (FULL << b)) == 0) by (bit_vector);
}

/// For every square and every blocker subset of its relevant mask, the
/// rook's magic-table lookup holds exactly the brute-force ray-walk
/// attack set for that occupancy.
pub proof fn lemma_rook_lookup_is_ray_walk(t: SlidingRook, s: u64, b: u64)
    requires
        t.wf(),
        s < 64,
        b & relevant_mask(rook_dirs(), s) == b,
    ensures
        ({
            let m = t.magic@[s as int]@;
            &&& 0 <= m.off + magic_index(m, b) < t.table@.len()
            &&& t.table@[m.off + magic_index(m, b)]@ == rook_ray(s, b)
        }),
{
    let m = t.magic@[s as int]@;
    assert(magic_index(m, b) == magic_index(m, b));
    assert(crate::magic::slot_ok(t.table@, m, s, b, rook_dirs()));
    assert(rook_dirs()[0] == crate::bitboard::Direction::North);
    assert(rook_dirs()[1] == crate::bitboard::Direction::East);
    assert(rook_dirs()[2] == crate::bitboard::Direction::South);
    assert(rook_dirs()[3] == crate::bitboard::Direction::West);
}

/// For every square and every blocker subset of its relevant mask, the
/// bishop's magic-table lookup holds exactly the brute-force ray-walk
/// attack set for that occupancy.
pub proof fn lemma_bishop_lookup_is_ray_walk(t: SlidingBishop, s: u64, b: u64)
    requires
        t.wf(),
        s < 64,
        b & relevant_mask(bishop_dirs(), s) == b,
    ensures
        ({
            let m = t.magic@[s as int]@;
            &&& 0 <= m.off + magic_index(m, b) < t.table@.len()
            &&& t.table@[m.off + magic_index(m, b)]@ == bishop_ray(s, b)
        }),
{
    let m = t.magic@[s as int]@;
    assert(magic_index(m, b) == magic_index(m, b));
    assert(crate::magic::slot_ok(t.table@, m, s, b, bishop_dirs()));
    assert(bishop_dirs()[0] == crate::bitboard::Direction::NorthEast);
    assert(bishop_dirs()[1] == crate::bitboard::Direction::SouthEast);
    assert(bishop_dirs()[2] == crate::bitboard::Direction::SouthWest);
    assert(bishop_dirs()[3] == crate::bitboard::Direction::NorthWest);
}

/// The per-square knight attack table.
fn knight_table() -> (r: Vec<BitBoard>)
    ensures
        r@.len() == 64,
        forall|s: u64| s < 64 ==> (#[trigger] r@[s as int])@ == knight_spec(1u64 << s),
{
    let mut v: Vec<BitBoard> = Vec::new();
    let mut s: u64 = 0;
    while s < 64
        invariant
            s <= 64,
            v@.len() == s,
            forall|j: u64| j < s ==> (#[trigger] v@[j as int])@ == knight_spec(1u64 << j),
        decreases 64 - s,
    {
        v.push(knight_attack_of(BitBoard::from_unshifted(s)));
        s = s + 1;
    }
    v
}

/// The per-square king attack table.
fn king_table() -> (r: Vec<BitBoard>)
    ensures
        r@.len() == 64,
        forall|s: u64| s < 64 ==> (#[trigger] r@[s as int])@ == king_spec(1u64 << s),
{
    let mut v: Vec<BitBoard> = Vec::new();
    let mut s: u64 = 0;
    while s < 64
        invariant
            s <= 64,
            v@.len() == s,
            forall|j: u64| j < s ==> (#[trigger] v@[j as int])@ == king_spec(1u64 << j),
        decreases 64 - s,
    {
        v.push(king_attack_of(BitBoard::from_unshifted(s)));
        s = s + 1;
    }
    v
}

/// The 64x64 line-alignment table: for each aligned pair, the full
/// shared line with endpoints; for other pairs, the empty set.
fn line_table(rook: &SlidingRook, bishop: &SlidingBishop) -> (r: Vec<BitBoard>)
    requires
        rook.wf(),
        bishop.wf(),
    ensures
        r@.len() == 4096,
        forall|a: u64, b: u64| a < 64 && b < 64 ==> (#[trigger] r@[a * 64 + b])@ == line_spec(a, b),
{
    let mut v: Vec<BitBoard> = Vec::new();
    let mut a: u64 = 0;
    while a < 64
        invariant
            a <= 64,
            v@.len() == a * 64,
            rook.wf(),
            bishop.wf(),
            forall|x: u64, y: u64| x < a && y < 64 ==> (#[trigger] v@[x * 64 + y])@ == line_spec(
                x,
                y,
            ),
        decreases 64 - a,
    {
        let sa = match Square::from_index(a) {
            Ok(q) => q,
            Err(_) => vstd::pervasive::unreached(),
        };
        let mut b: u64 = 0;
        while b < 64
            invariant
                a < 64,
                b <= 64,
                sa.wf(),
                sa@ == a,
                v@.len() == a * 64 + b,
                rook.wf(),
                bishop.wf(),
                forall|x: u64, y: u64| x < a && y < 64 ==> (#[trigger] v@[x * 64 + y])@
                    == line_spec(x, y),
                forall|y: u64| y < b ==> (#[trigger] v@[a * 64 + y])@ == line_spec(a, y),
            decreases 64 - b,
        {
            let sb = match Square::from_index(b) {
                Ok(q) => q,
                Err(_) => vstd::pervasive::unreached(),
            };
            let zero = BitBoard::zero();
            let endpoints = BitBoard::from_unshifted(a).or(BitBoard::from_unshifted(b));
            let bishop_a = bishop.attack(sa, zero);
            let entry: BitBoard;
            proof {
                lemma_mask_idem(0, relevant_mask(bishop_dirs(), a));
                lemma_mask_idem(0, relevant_mask(rook_dirs(), a));
                lemma_mask_idem(0, relevant_mask(bishop_dirs(), b));
                lemma_mask_idem(0, relevant_mask(rook_dirs(), b));
                lemma_test_bit(bishop_ray(a, 0), b);
                lemma_test_bit(rook_ray(a, 0), b);
            }
            if !bishop_a.and(BitBoard::from_unshifted(b)).is_empty() {
                let bishop_b = bishop.attack(sb, zero);
                entry = bishop_a.and(bishop_b).or(endpoints);
                proof {
                    lemma_or_assoc(bishop_a@ & bishop_b@, 1u64 << a, 1u64 << b);
                }
            } else {
                let rook_a = rook.attack(sa, zero);
                if !rook_a.and(BitBoard::from_unshifted(b)).is_empty() {
                    let rook_b = rook.attack(sb, zero);
                    entry = rook_a.and(rook_b).or(endpoints);
                    proof {
                        lemma_or_assoc(rook_a@ & rook_b@, 1u64 << a, 1u64 << b);
                    }
                } else {
                    entry = zero;
                }
            }
            v.push(entry);
            b = b + 1;
        }
        a = a + 1;
    }
    v
}

/// The 64x64 Chebyshev-distance table.
fn dist_table() -> (r: Vec<u8>)
    ensures
        r@.len() == 4096,
        forall|a: u64, b: u64| a < 64 && b < 64 ==> (#[trigger] r@[a * 64 + b]) == dist_spec(a, b),
{
    let mut v: Vec<u8> = Vec::new();
    let mut a: u64 = 0;
    while a < 64
        invariant
            a <= 64,
            v@.len() == a * 64,
            forall|x: u64, y: u64| x < a && y < 64 ==> (#[trigger] v@[x * 64 + y]) == dist_spec(
                x,
                y,
            ),
        decreases 64 - a,
    {
        let sa = match Square::from_index(a) {
            Ok(q) => q,
            Err(_) => vstd::pervasive::unreached(),
        };
        let mut b: u64 = 0;
        while b < 64
            invariant
                a < 64,
                b <= 64,
                sa.wf(),
                sa@ == a,
                v@.len() == a * 64 + b,
                forall|x: u64, y: u64| x < a && y < 64 ==> (#[trigger] v@[x * 64 + y])
                    == dist_spec(x, y),
                forall|y: u64| y < b ==> (#[trigger] v@[a * 64 + y]) == dist_spec(a, y),
            decreases 64 - b,
        {
            let sb = match Square::from_index(b) {
                Ok(q) => q,
                Err(_) => vstd::pervasive::unreached(),
            };
            v.push(distance(sa, sb));
            b = b + 1;
        }
        a = a + 1;
    }
    v
}

} // verus!
