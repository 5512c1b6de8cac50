//! Magic-bitboard perfect-hash tables for sliding-piece attack lookup.
//!
//! For each square a `Magic` descriptor holds the relevant blocker mask,
//! a fixed 64-bit hash multiplier, the hash shift, and an offset into a
//! shared flat table.  The builder enumerates every blocker subset of
//! each square's mask with the carry-rippler trick, computes the
//! reference ray-walk attack set for it, and stores it at the hashed
//! slot, refusing the whole construction if two subsets with different
//! attack sets ever hash to the same slot.

use vstd::prelude::*;
use crate::bitboard::{BitBoard, Direction, rank_bb_spec, file_bb_spec, FILE_A, FILE_H, RANK_1,
    RANK_8};
use crate::square::Square;
use crate::piece::PieceType;
use crate::attacks::sliding_spec;

verus! {

/// The mathematical content of a [`Magic`] descriptor.
pub struct MagicModel {
    /// Offset of this square's region in the shared flat table.
    pub off: int,
    /// The relevant blocker mask.
    pub mask: u64,
    /// The hash multiplier.
    pub magic: u64,
    /// The hash shift.
    pub shift: u64,
}

/// Per-square perfect-hash descriptor for one sliding-piece family.
#[derive(Copy, Clone)]
pub struct Magic {
    table: usize,
    mask: BitBoard,
    magic: u64,
    shift: u64,
}

impl View for Magic {
    type V = MagicModel;

    closed spec fn view(&self) -> MagicModel {
        MagicModel {
            off: self.table as int,
            mask: self.mask@,
            magic: self.magic,
            shift: self.shift,
        }
    }
}

impl Magic {
    /// Assemble a descriptor from its four components.
    pub fn new(table: usize, mask: BitBoard, magic: u64, shift: u64) -> (r: Self)
        ensures
            r@ == (MagicModel { off: table as int, mask: mask@, magic, shift }),
    {
        Self { table, mask, magic, shift }
    }

    /// The offset of this square's region in the shared flat table.
    pub fn table(self) -> (r: usize)
        ensures
            r == self@.off,
    {
        self.table
    }

    /// The relevant blocker mask.
    pub fn mask(self) -> (r: BitBoard)
        ensures
            r@ == self@.mask,
    {
        self.mask
    }

    /// The hash multiplier.
    pub fn magic(self) -> (r: u64)
        ensures
            r == self@.magic,
    {
        self.magic
    }

    /// The hash shift.
    pub fn shift(self) -> (r: u64)
        ensures
            r == self@.shift,
    {
        self.shift
    }
}

impl Default for Magic {
    /// The all-zero descriptor.
    fn default() -> (r: Self)
        ensures
            r@ == (MagicModel { off: 0, mask: 0u64, magic: 0u64, shift: 0u64 }),
    {
        Self { table: 0, mask: BitBoard::zero(), magic: 0, shift: 0 }
    }
}

/// The hash slot, within the square's region, of occupancy `occ`.
pub open spec fn magic_index(m: MagicModel, occ: u64) -> int {
    (vstd::wrapping::u64_specs::wrapping_mul(occ & m.mask, m.magic) >> m.shift) as int
}

/// The board-edge squares that add no blocker information for square
/// `s`: first and last ranks off `s`'s rank, and first and last files
/// off `s`'s file.
pub open spec fn edges_spec(s: u64) -> u64 {
    ((RANK_1 | RANK_8) & !rank_bb_spec(s)) | ((FILE_A | FILE_H) & !file_bb_spec(s))
}

/// The relevant blocker mask of square `s`: the empty-board ray squares
/// less the uninformative edges.
pub open spec fn relevant_mask(dirs: Seq<Direction>, s: u64) -> u64 {
    sliding_spec(dirs, s, 0) & !edges_spec(s)
}

/// The hash slot of subset `c` of square `s`'s relevant mask, under the
/// square's magic multiplier.
pub open spec fn subset_hash(dirs: Seq<Direction>, mags: Seq<u64>, s: u64, c: u64) -> int {
    let k = pop64(relevant_mask(dirs, s));
    (vstd::wrapping::u64_specs::wrapping_mul(c, mags[s as int]) >> ((64 - k) as u64)) as int
}

/// The total size of the per-square table regions below square `n`,
/// each sized by its relevant mask's subset count.
pub open spec fn region_sum(dirs: Seq<Direction>, n: int) -> int
    decreases n,
{
    if n <= 0 {
        0
    } else {
        region_sum(dirs, n - 1) + vstd::arithmetic::power2::pow2(
            pop64(relevant_mask(dirs, (n - 1) as u64)),
        )
    }
}

/// The magic multipliers work for this family: every relevant mask has
/// between one and thirty-two bits, the regions fit in the table, and
/// on each square any two mask subsets hashing to one slot have equal
/// attack sets, so the construction-time collision checks cannot fire.
pub open spec fn magics_ok(dirs: Seq<Direction>, mags: Seq<u64>, table_size: int) -> bool {
    &&& region_sum(dirs, 64) <= table_size
    &&& forall|s: u64| s < 64 ==> 1 <= #[trigger] pop64(relevant_mask(dirs, s)) <= 32
    &&& forall|s: u64, c1: u64, c2: u64|
        s < 64 && c1 & relevant_mask(dirs, s) == c1 && c2 & relevant_mask(dirs, s) == c2
            && #[trigger] subset_hash(dirs, mags, s, c1) == #[trigger] subset_hash(
            dirs,
            mags,
            s,
            c2,
        ) ==> sliding_spec(dirs, s, c1) == sliding_spec(dirs, s, c2)
}

/// Region sizes are positive, so the partial sums grow.
proof fn lemma_region_sum_mono(dirs: Seq<Direction>, n1: int, n2: int)
    requires
        n1 <= n2,
    ensures
        region_sum(dirs, n1) <= region_sum(dirs, n2),
    decreases n2 - n1,
{
    if n1 < n2 {
        lemma_region_sum_mono(dirs, n1, n2 - 1);
        vstd::arithmetic::power2::lemma_pow2_pos(pop64(relevant_mask(dirs, (n2 - 1) as u64)));
    }
}

/// A hash of a `k`-bit mask's subset lands inside the `2^k`-slot region.
proof fn lemma_hash_in_region(c: u64, mg: u64, k: u64)
    requires
        1 <= k <= 32,
    ensures
        ({
            let h = (vstd::wrapping::u64_specs::wrapping_mul(c, mg) >> ((64 - k) as u64)) as int;
            0 <= h < vstd::arithmetic::power2::pow2(k as nat)
        }),
{
    let x = vstd::wrapping::u64_specs::wrapping_mul(c, mg);
    assert((x >> ((64 - k) as u64)) < (1u64 << k)) by (bit_vector)
        requires
            1 <= k <= 32,
    ;
    vstd::bits::lemma_u64_pow2_no_overflow(k as nat);
    vstd::bits::lemma_u64_shl_is_mul(1u64, k);
}

/// One hashed slot holds the reference attack set for its occupancy.
pub open spec fn slot_ok(table: Seq<BitBoard>, m: MagicModel, s: u64, c: u64, dirs: Seq<
    Direction,
>) -> bool {
    &&& 0 <= m.off + magic_index(m, c) < table.len()
    &&& table[m.off + magic_index(m, c)]@ == sliding_spec(dirs, s, c)
}

/// The whole table is a correct perfect-hash of the ray walk: for every
/// square and every blocker subset of its relevant mask, the hashed slot
/// holds exactly the brute-force ray-walk attack set.
pub open spec fn sliding_wf(table: Seq<BitBoard>, magics: Seq<Magic>, dirs: Seq<
    Direction,
>) -> bool {
    &&& magics.len() == 64
    &&& forall|s: int| 0 <= s < 64 ==> (#[trigger] magics[s])@.mask == relevant_mask(dirs, s as u64)
        && magics[s]@.shift < 64
    &&& forall|s: int, c: u64|
        #![trigger magic_index(magics[s]@, c)]
        0 <= s < 64 && c & magics[s]@.mask == c ==> slot_ok(table, magics[s]@, s as u64, c, dirs)
}

/// The rook's shared flat table and per-square descriptors.
pub struct SlidingRook {
    /// The shared flat attack table.
    pub table: Vec<BitBoard>,
    /// The per-square descriptors.
    pub magic: Vec<Magic>,
}

/// The rook walks the four orthogonal directions.
pub open spec fn rook_dirs() -> Seq<Direction> {
    seq![Direction::North, Direction::East, Direction::South, Direction::West]
}

/// The bishop walks the four diagonal directions.
pub open spec fn bishop_dirs() -> Seq<Direction> {
    seq![Direction::NorthEast, Direction::SouthEast, Direction::SouthWest, Direction::NorthWest]
}

impl SlidingRook {
    /// The table is a correct perfect-hash of the rook ray walk.
    pub open spec fn wf(self) -> bool {
        sliding_wf(self.table@, self.magic@, rook_dirs())
    }

    /// Assemble from a flat table and per-square descriptors.
    pub fn new(table: Vec<BitBoard>, magic: Vec<Magic>) -> (r: Self)
        ensures
            r.table@ == table@,
            r.magic@ == magic@,
    {
        Self { table, magic }
    }

    /// Compute the rook tables from scratch; fails only if the
    /// built-in hash multipliers were not collision-free.
    pub fn build() -> (r: Option<SlidingRook>)
        ensures
            r matches Some(t) ==> t.wf(),
            magics_ok(rook_dirs(), rook_magics(), 0x19000) ==> r is Some,
    {
        let dirs: [Direction; 4] = [
            Direction::North,
            Direction::East,
            Direction::South,
            Direction::West,
        ];
        proof {
            assert(dirs@ =~= rook_dirs());
        }
        match build_sliding(dirs, rook_magic_numbers(), 0x19000) {
            Some((table, magic)) => Some(SlidingRook::new(table, magic)),
            None => None,
        }
    }
}

/// The bishop's shared flat table and per-square descriptors.
pub struct SlidingBishop {
    /// The shared flat attack table.
    pub table: Vec<BitBoard>,
    /// The per-square descriptors.
    pub magic: Vec<Magic>,
}

impl SlidingBishop {
    /// The table is a correct perfect-hash of the bishop ray walk.
    pub open spec fn wf(self) -> bool {
        sliding_wf(self.table@, self.magic@, bishop_dirs())
    }

    /// Assemble from a flat table and per-square descriptors.
    pub fn new(table: Vec<BitBoard>, magic: Vec<Magic>) -> (r: Self)
        ensures
            r.table@ == table@,
            r.magic@ == magic@,
    {
        Self { table, magic }
    }

    /// Compute the bishop tables from scratch; fails only if the
    /// built-in hash multipliers were not collision-free.
    pub fn build() -> (r: Option<SlidingBishop>)
        ensures
            r matches Some(t) ==> t.wf(),
            magics_ok(bishop_dirs(), bishop_magics(), 0x1480) ==> r is Some,
    {
        let dirs: [Direction; 4] = [
            Direction::NorthEast,
            Direction::SouthEast,
            Direction::SouthWest,
            Direction::NorthWest,
        ];
        proof {
            assert(dirs@ =~= bishop_dirs());
        }
        match build_sliding(dirs, bishop_magic_numbers(), 0x1480) {
            Some((table, magic)) => Some(SlidingBishop::new(table, magic)),
            None => None,
        }
    }
}

/// The successor of subset `b` of `m` in the carry-rippler enumeration:
/// `(b - m) & m` with wrapping subtraction.  For `b` a proper subset of
/// `m` this is the numerically smallest subset of `m` above `b`; for
/// `b == m` it is zero, closing the cycle.
pub open spec fn ripple_next(b: u64, m: u64) -> u64 {
    (if b - m < 0 {
        (b - m + 0x1_0000_0000_0000_0000) as u64
    } else {
        (b - m) as u64
    }) & m
}

/// Stepping a proper subset rises strictly; stepping the full mask
/// closes the cycle at zero; the step stays inside the mask.
proof fn lemma_ripple_step(b: u64, m: u64)
    by (bit_vector)
    requires
        b & m == b,
    ensures
        ripple_next(b, m) & m == ripple_next(b, m),
        b != m ==> ripple_next(b, m) > b,
        b == m ==> ripple_next(b, m) == 0,
{
}

/// No subset of `m` lies strictly between `b` and its successor.
proof fn lemma_ripple_gap(b: u64, m: u64, c: u64)
    by (bit_vector)
    requires
        b & m == b,
        b != m,
        c & m == c,
        c < ripple_next(b, m),
    ensures
        c <= b,
{
}

/// A subset of `m` is numerically at most `m`.
proof fn lemma_subset_le(c: u64, m: u64)
    by (bit_vector)
    requires
        c & m == c,
    ensures
        c <= m,
{
}

/// The number of set bits among the low `k` bits of `b`.
pub open spec fn pop_rec(b: u64, k: nat) -> nat
    decreases k,
{
    if k == 0 {
        0
    } else {
        ((b & 1) as nat) + pop_rec(b >> 1u64, (k - 1) as nat)
    }
}

/// The number of set bits of `b`.
pub open spec fn pop64(b: u64) -> nat {
    pop_rec(b, 64)
}

/// The number of set bits of `b`, at most 64.
fn popcount64(b: u64) -> (r: u64)
    ensures
        r <= 64,
        r == pop64(b),
{
    let mut x = b;
    let mut c: u64 = 0;
    let mut i: u64 = 0;
    while i < 64
        invariant
            c <= i,
            i <= 64,
            c + pop_rec(x, (64 - i) as nat) == pop64(b),
        decreases 64 - i,
    {
        proof {
            assert(x & 1 <= 1) by (bit_vector);
            assert(pop_rec(x, (64 - i) as nat) == ((x & 1) as nat) + pop_rec(
                x >> 1u64,
                (63 - i) as nat,
            ));
        }
        c = c + (x & 1);
        x = x >> 1u64;
        i = i + 1;
    }
    c
}

/// A vector of `n` empty bitboards.
fn zero_table(n: usize) -> (r: Vec<BitBoard>)
    ensures
        r@.len() == n,
{
    let mut v: Vec<BitBoard> = Vec::new();
    let mut i: usize = 0;
    while i < n
        invariant
            v@.len() == i,
            i <= n,
        decreases n - i,
    {
        v.push(BitBoard::zero());
        i = i + 1;
    }
    v
}

/// A vector of `n` `false` flags.
fn false_table(n: usize) -> (r: Vec<bool>)
    ensures
        r@.len() == n,
        forall|i: int| 0 <= i < n ==> !r@[i],
{
    let mut v: Vec<bool> = Vec::new();
    let mut i: usize = 0;
    while i < n
        invariant
            v@.len() == i,
            i <= n,
            forall|j: int| 0 <= j < i ==> !v@[j],
        decreases n - i,
    {
        v.push(false);
        i = i + 1;
    }
    v
}

/// The board-edge squares that add no blocker information for `square`.
fn edges_of(square: Square) -> (r: BitBoard)
    requires
        square.wf(),
    ensures
        r@ == edges_spec(square@),
{
    let ranks = BitBoard::from_shifted(RANK_1 | RANK_8);
    let files = BitBoard::from_shifted(FILE_A | FILE_H);
    ranks.and(BitBoard::bitboard_of_rank(square).not()).or(
        files.and(BitBoard::bitboard_of_file(square).not()),
    )
}

/// Build one sliding family's table: enumerate every blocker subset of
/// every square's relevant mask, hash it, and store the reference
/// ray-walk attack set; `None` when a hash collision maps subsets with
/// different attack sets to one slot, or a slot falls outside the table.
fn build_sliding(dirs: [Direction; 4], magic_numbers: Vec<u64>, table_size: usize) -> (r: Option<
    (Vec<BitBoard>, Vec<Magic>),
>)
    requires
        magic_numbers@.len() == 64,
        table_size < 0x0100_0000,
    ensures
        r matches Some(p) ==> sliding_wf(p.0@, p.1@, dirs@),
        magics_ok(dirs@, magic_numbers@, table_size as int) ==> r is Some,
{
    let ghost good = magics_ok(dirs@, magic_numbers@, table_size as int);
    let mut table: Vec<BitBoard> = zero_table(table_size);
    let mut written: Vec<bool> = false_table(table_size);
    let mut magics: Vec<Magic> = Vec::new();
    let mut offset: u64 = 0;
    let mut s: u64 = 0;
    while s < 64
        invariant
            s <= 64,
            magics@.len() == s,
            table@.len() == table_size,
            written@.len() == table_size,
            offset <= table_size as u64,
            magic_numbers@.len() == 64,
            table_size < 0x0100_0000,
            good == magics_ok(dirs@, magic_numbers@, table_size as int),
            good ==> offset == region_sum(dirs@, s as int),
            good ==> forall|j: int| 0 <= j < table_size && written@[j] ==> j < offset,
            forall|ss: int| 0 <= ss < s ==> (#[trigger] magics@[ss])@.mask == relevant_mask(
                dirs@,
                ss as u64,
            ) && magics@[ss]@.shift < 64,
            forall|ss: int, c: u64|
                #![trigger magic_index(magics@[ss]@, c)]
                0 <= ss < s && c & magics@[ss]@.mask == c ==> slot_ok(
                    table@,
                    magics@[ss]@,
                    ss as u64,
                    c,
                    dirs@,
                ) && written@[magics@[ss]@.off + magic_index(magics@[ss]@, c)],
        decreases 64 - s,
    {
        let sq = match Square::from_index(s) {
            Ok(q) => q,
            Err(_) => vstd::pervasive::unreached(),
        };
        let mask_bb = PieceType::sliding_attack(dirs, sq, BitBoard::zero()).and(
            edges_of(sq).not(),
        );
        let mask = mask_bb.value();
        let mg = magic_numbers[s as usize];
        let k = popcount64(mask);
        if k == 0 || k > 32 {
            proof {
                if good {
                    assert(1 <= pop64(relevant_mask(dirs@, s)) <= 32);
                    assert(false);
                }
            }
            return None;
        }
        let sh: u64 = 64 - k;
        let ghost cur = MagicModel { off: offset as int, mask, magic: mg, shift: sh };
        let ghost magics_snap = magics@;
        let mut b: u64 = 0;
        proof {
            assert(0u64 & mask == 0u64) by (bit_vector);
        }
        loop
            invariant_except_break
                sq.wf(),
                sq@ == s,
                b & mask == b,
                b <= mask,
                32 <= sh < 64,
                table@.len() == table_size,
                written@.len() == table_size,
                offset <= table_size as u64,
                table_size < 0x0100_0000,
                s < 64,
                magics@ == magics_snap,
                magics@.len() == s,
                cur == (MagicModel { off: offset as int, mask, magic: mg, shift: sh }),
                mask == relevant_mask(dirs@, s),
                k == pop64(mask),
                1 <= k <= 32,
                sh == 64 - k,
                mg == magic_numbers@[s as int],
                magic_numbers@.len() == 64,
                good == magics_ok(dirs@, magic_numbers@, table_size as int),
                good ==> offset == region_sum(dirs@, s as int),
                good ==> forall|j: int| 0 <= j < table_size && written@[j] ==> j < offset
                    + vstd::arithmetic::power2::pow2(k as nat),
                good ==> forall|j: int|
                    offset <= j < table_size && written@[j] ==> exists|c: u64|
                        c & mask == c && c < b && cur.off + #[trigger] magic_index(cur, c) == j,
                forall|ss: int| 0 <= ss < s ==> (#[trigger] magics@[ss])@.mask == relevant_mask(
                    dirs@,
                    ss as u64,
                ) && magics@[ss]@.shift < 64,
                forall|ss: int, c: u64|
                    #![trigger magic_index(magics@[ss]@, c)]
                    0 <= ss < s && c & magics@[ss]@.mask == c ==> slot_ok(
                        table@,
                        magics@[ss]@,
                        ss as u64,
                        c,
                        dirs@,
                    ) && written@[magics@[ss]@.off + magic_index(magics@[ss]@, c)],
                forall|c: u64|
                    #![trigger magic_index(cur, c)]
                    c & mask == c && c < b ==> slot_ok(table@, cur, s, c, dirs@) && written@[
                        cur.off + magic_index(cur, c)],
            ensures
                table@.len() == table_size,
                written@.len() == table_size,
                magics@ == magics_snap,
                good ==> forall|j: int| 0 <= j < table_size && written@[j] ==> j < offset
                    + vstd::arithmetic::power2::pow2(k as nat),
                forall|ss: int, c: u64|
                    #![trigger magic_index(magics@[ss]@, c)]
                    0 <= ss < s && c & magics@[ss]@.mask == c ==> slot_ok(
                        table@,
                        magics@[ss]@,
                        ss as u64,
                        c,
                        dirs@,
                    ) && written@[magics@[ss]@.off + magic_index(magics@[ss]@, c)],
                forall|c: u64|
                    #![trigger magic_index(cur, c)]
                    c & mask == c ==> slot_ok(table@, cur, s, c, dirs@) && written@[cur.off
                        + magic_index(cur, c)],
            decreases mask - b,
        {
            let idx64 = (b & mask).wrapping_mul(mg) >> sh;
            proof {
                assert(idx64 <= 0xffff_ffffu64) by (bit_vector)
                    requires
                        32 <= sh < 64,
                        idx64 == (b & mask).wrapping_mul(mg) >> sh,
                ;
                assert(idx64 == magic_index(cur, b));
            }
            let slot64 = offset + idx64;
            if slot64 >= table.len() as u64 {
                proof {
                    if good {
                        lemma_hash_in_region(b, mg, k);
                        assert(region_sum(dirs@, s as int + 1) == region_sum(dirs@, s as int)
                            + vstd::arithmetic::power2::pow2(k as nat));
                        lemma_region_sum_mono(dirs@, s as int + 1, 64);
                        assert(false);
                    }
                }
                return None;
            }
            let slot = slot64 as usize;
            let refatt = PieceType::sliding_attack(dirs, sq, BitBoard::from_shifted(b));
            let ghost tpre = table@;
            let ghost wpre = written@;
            if written[slot] {
                if table[slot].value() != refatt.value() {
                    proof {
                        if good {
                            assert(written@[slot as int]);
                            assert(exists|c: u64|
                                c & mask == c && c < b && cur.off + #[trigger] magic_index(
                                    cur,
                                    c,
                                ) == slot as int);
                            let c = choose|c: u64|
                                c & mask == c && c < b && cur.off + #[trigger] magic_index(
                                    cur,
                                    c,
                                ) == slot as int;
                            assert(magic_index(cur, c) == magic_index(cur, b));
                            assert(vstd::wrapping::u64_specs::wrapping_mul(c & mask, mg)
                                == vstd::wrapping::u64_specs::wrapping_mul(c, mg));
                            assert(subset_hash(dirs@, magic_numbers@, s, c) == magic_index(
                                cur,
                                c,
                            ));
                            assert(vstd::wrapping::u64_specs::wrapping_mul(b & mask, mg)
                                == vstd::wrapping::u64_specs::wrapping_mul(b, mg));
                            assert(subset_hash(dirs@, magic_numbers@, s, b) == magic_index(
                                cur,
                                b,
                            ));
                            assert(sliding_spec(dirs@, s, c) == sliding_spec(dirs@, s, b));
                            assert(slot_ok(table@, cur, s, c, dirs@));
                            assert(table@[slot as int]@ == sliding_spec(dirs@, s, b));
                            assert(false);
                        }
                    }
                    return None;
                }
                proof {
                    assert(slot_ok(table@, cur, s, b, dirs@));
                    assert forall|c: u64|
                        #![trigger magic_index(cur, c)]
                        c & mask == c && c <= b implies slot_ok(
                        table@,
                        cur,
                        s,
                        c,
                        dirs@,
                    ) && written@[cur.off + magic_index(cur, c)] by {
                        if c < b {
                            assert(slot_ok(table@, cur, s, c, dirs@));
                        } else {
                            assert(c == b);
                        }
                    }
                    if good {
                        assert forall|j: int| offset <= j < table_size && written@[j] implies
                            exists|c: u64|
                                c & mask == c && c <= b && cur.off + #[trigger] magic_index(
                                    cur,
                                    c,
                                ) == j by {
                            let c0 = choose|c: u64|
                                c & mask == c && c < b && cur.off + #[trigger] magic_index(
                                    cur,
                                    c,
                                ) == j;
                            assert(c0 & mask == c0 && c0 <= b && cur.off + magic_index(cur, c0)
                                == j);
                        }
                    }
                }
            } else {
                table[slot] = refatt;
                written[slot] = true;
                proof {
                    assert(table@ == tpre.update(slot as int, refatt));
                    assert(written@ == wpre.update(slot as int, true));
                    assert(slot_ok(table@, cur, s, b, dirs@));
                    assert forall|c: u64|
                        #![trigger magic_index(cur, c)]
                        c & mask == c && c <= b implies slot_ok(
                        table@,
                        cur,
                        s,
                        c,
                        dirs@,
                    ) && written@[cur.off + magic_index(cur, c)] by {
                        if c < b {
                            assert(slot_ok(tpre, cur, s, c, dirs@) && wpre[cur.off + magic_index(
                                cur,
                                c,
                            )]);
                            assert(cur.off + magic_index(cur, c) != slot as int);
                            assert(slot_ok(table@, cur, s, c, dirs@));
                        } else {
                            assert(c == b);
                        }
                    }
                    assert forall|ss: int, c: u64|
                        #![trigger magic_index(magics@[ss]@, c)]
                        0 <= ss < s && c & magics@[ss]@.mask == c implies slot_ok(
                        table@,
                        magics@[ss]@,
                        ss as u64,
                        c,
                        dirs@,
                    ) && written@[magics@[ss]@.off + magic_index(magics@[ss]@, c)] by {
                        assert(slot_ok(tpre, magics@[ss]@, ss as u64, c, dirs@) && wpre[magics@[
                            ss]@.off + magic_index(magics@[ss]@, c)]);
                        assert(magics@[ss]@.off + magic_index(magics@[ss]@, c) != slot as int);
                        assert(slot_ok(table@, magics@[ss]@, ss as u64, c, dirs@));
                    }
                    if good {
                        assert forall|j: int| offset <= j < table_size && written@[j] implies
                            exists|c: u64|
                                c & mask == c && c <= b && cur.off + #[trigger] magic_index(
                                    cur,
                                    c,
                                ) == j by {
                            if j == slot as int {
                                assert(b & mask == b && b <= b && cur.off + magic_index(cur, b)
                                    == j);
                            } else {
                                assert(wpre[j]);
                                let c0 = choose|c: u64|
                                    c & mask == c && c < b && cur.off + #[trigger] magic_index(
                                        cur,
                                        c,
                                    ) == j;
                                assert(c0 & mask == c0 && c0 <= b && cur.off + magic_index(
                                    cur,
                                    c0,
                                ) == j);
                            }
                        }
                        lemma_hash_in_region(b, mg, k);
                        assert forall|j: int| 0 <= j < table_size && written@[j] implies j
                            < offset + vstd::arithmetic::power2::pow2(k as nat) by {
                            if j != slot as int {
                                assert(wpre[j]);
                            }
                        }
                    }
                }
            }
            let next = b.wrapping_sub(mask) & mask;
            proof {
                assert(next == ripple_next(b, mask));
                lemma_ripple_step(b, mask);
            }
            if next == 0 {
                proof {
                    assert(b == mask);
                    if good {
                        assert forall|j: int| 0 <= j < table_size && written@[j] implies j
                            < offset + vstd::arithmetic::power2::pow2(k as nat) by {}
                    }
                    assert forall|c: u64|
                        #![trigger magic_index(cur, c)]
                        c & mask == c implies slot_ok(table@, cur, s, c, dirs@) && written@[
                        cur.off + magic_index(cur, c)] by {
                        lemma_subset_le(c, mask);
                        assert(c <= b);
                        assert(slot_ok(table@, cur, s, c, dirs@));
                    }
                }
                break;
            }
            proof {
                assert forall|c: u64|
                    #![trigger magic_index(cur, c)]
                    c & mask == c && c < next implies slot_ok(
                    table@,
                    cur,
                    s,
                    c,
                    dirs@,
                ) && written@[cur.off + magic_index(cur, c)] by {
                    lemma_ripple_gap(b, mask, c);
                    assert(c <= b);
                    assert(slot_ok(table@, cur, s, c, dirs@));
                }
                lemma_subset_le(next, mask);
                if good {
                    assert forall|j: int| offset <= j < table_size && written@[j] implies
                        exists|c: u64|
                            c & mask == c && c < next && cur.off + #[trigger] magic_index(
                                cur,
                                c,
                            ) == j by {
                        let c0 = choose|c: u64|
                            c & mask == c && c <= b && cur.off + #[trigger] magic_index(
                                cur,
                                c,
                            ) == j;
                        assert(c0 & mask == c0 && c0 < next && cur.off + magic_index(cur, c0)
                            == j);
                    }
                }
            }
            b = next;
        }
        magics.push(Magic::new(offset as usize, mask_bb, mg, sh));
        let region: u64 = 1u64 << k;
        proof {
            if good {
                vstd::bits::lemma_u64_pow2_no_overflow(k as nat);
                vstd::bits::lemma_u64_shl_is_mul(1u64, k);
                assert(region == vstd::arithmetic::power2::pow2(k as nat));
                assert(region_sum(dirs@, s as int + 1) == region_sum(dirs@, s as int)
                    + vstd::arithmetic::power2::pow2(k as nat));
                lemma_region_sum_mono(dirs@, s as int + 1, 64);
                assert(offset + region <= table_size as u64);
            }
        }
        if region > table.len() as u64 {
            proof {
                if good {
                    assert(false);
                }
            }
            return None;
        }
        if offset > table.len() as u64 - region {
            proof {
                if good {
                    assert(false);
                }
            }
            return None;
        }
        offset = offset + region;
        s = s + 1;
        proof {
            assert(magics@[s - 1]@ == cur);
            assert forall|ss: int| 0 <= ss < s implies (#[trigger] magics@[ss])@.mask
                == relevant_mask(dirs@, ss as u64) && magics@[ss]@.shift < 64 by {
                if ss < s - 1 {
                } else {
                    assert(magics@[ss] == magics@[s - 1]);
                }
            }
            assert forall|ss: int, c: u64|
                #![trigger magic_index(magics@[ss]@, c)]
                0 <= ss < s && c & magics@[ss]@.mask == c implies slot_ok(
                table@,
                magics@[ss]@,
                ss as u64,
                c,
                dirs@,
            ) && written@[magics@[ss]@.off + magic_index(magics@[ss]@, c)] by {
                if ss < s - 1 {
                    assert(slot_ok(table@, magics_snap[ss]@, ss as u64, c, dirs@));
                } else {
                    assert(magics@[ss]@ == cur);
                    assert(slot_ok(table@, cur, ss as u64, c, dirs@));
                }
            }
        }
    }
    Some((table, magics))
}

/// The fixed per-square hash multipliers for the rook tables.
pub open spec fn rook_magics() -> Seq<u64> {
    seq![
        36028867955671040u64,
        2395917338224361536u64,
        936757656041832464u64,
        648535942831284356u64,
        36037595259731970u64,
        13943151043426386048u64,
        432349966580056576u64,
        4683745813775001856u64,
        1191624314978336800u64,
        4611756662317916160u64,
        4625338105090543616u64,
        140806208356480u64,
        1688987371057664u64,
        9288708641522688u64,
        153403870897537280u64,
        281550411726850u64,
        2401883155071024u64,
        1206964838111645696u64,
        166705754384925184u64,
        36039792408011264u64,
        10376580514281768960u64,
        9148486532465664u64,
        578787319189340418u64,
        398007816633254020u64,
        2341872150903791616u64,
        2314850762536009728u64,
        297238127310798880u64,
        2251868801728768u64,
        2594082183614301184u64,
        820222482337235456u64,
        37717655469424904u64,
        577596144088011012u64,
        1152991874030502016u64,
        3171026856472219648u64,
        20415869351890944u64,
        4611844348286345472u64,
        2455605323386324224u64,
        140754676613632u64,
        1740713828645089416u64,
        58361257132164u64,
        70370893791232u64,
        9227880322828615684u64,
        72092778695295040u64,
        577023839834341392u64,
        4723150143565660416u64,
        563087661073408u64,
        651083773116450u64,
        72128789630550047u64,
        153192758223054976u64,
        869194865525653568u64,
        4972009250306933248u64,
        1031325449119138048u64,
        1297041090863464576u64,
        580401419157405824u64,
        1657992643584u64,
        306245066729521664u64,
        15206439601351819394u64,
        14143290885479661953u64,
        1688988407201810u64,
        18065251325837538u64,
        1152927311403745429u64,
        162411078742050817u64,
        334255838724676u64,
        27323018585852550u64,
    ]
}

/// The fixed per-square hash multipliers for the bishop tables.
pub open spec fn bishop_magics() -> Seq<u64> {
    seq![
        306397059236266368u64,
        6638343277122827280u64,
        10377420549504106496u64,
        9193021019258913u64,
        2306408226914042898u64,
        10379110636817760276u64,
        27167319028441088u64,
        7566153073497751552u64,
        1513227076520969216u64,
        301917653126479936u64,
        72075465430409232u64,
        2343002121441460228u64,
        36033212782477344u64,
        9223373154083475456u64,
        6935629192638251008u64,
        72621648200664064u64,
        2310506081245267984u64,
        2533291987569153u64,
        146934404644733024u64,
        1838417834950912u64,
        579856052833622016u64,
        1729946448243595776u64,
        705208029025040u64,
        2886877732040869888u64,
        10092575566416331020u64,
        5635409948247040u64,
        738739924278198804u64,
        4648849515743289408u64,
        9233786889293807616u64,
        1155253577929753088u64,
        435164712050360592u64,
        3026700562025580641u64,
        4612284839965491969u64,
        10448650511900137472u64,
        571823356120080u64,
        40569782189687936u64,
        148620986995048708u64,
        4901113822871308288u64,
        4612077461748908288u64,
        10204585674276944u64,
        2534512027246592u64,
        5766297627561820676u64,
        13809969191200768u64,
        1153062656578422784u64,
        9318235838682899712u64,
        11533824475839595776u64,
        433770548762247233u64,
        92326036501692936u64,
        9227053213059129360u64,
        577024872779350852u64,
        108087561569959936u64,
        582151826703646856u64,
        81404176367767u64,
        316415319130374273u64,
        9113856212762624u64,
        145453328103440392u64,
        441392350330618400u64,
        1126492748710916u64,
        2309220790581891072u64,
        3026423624667006980u64,
        18019391702696464u64,
        4516931289817600u64,
        1450317422841301124u64,
        9246488805123342592u64,
    ]
}

/// The rook hash multipliers as a vector.
fn rook_magic_numbers() -> (r: Vec<u64>)
    ensures
        r@.len() == 64,
        r@ == rook_magics(),
{
    let mut v: Vec<u64> = Vec::new();
    v.push(36028867955671040);
    v.push(2395917338224361536);
    v.push(936757656041832464);
    v.push(648535942831284356);
    v.push(36037595259731970);
    v.push(13943151043426386048);
    v.push(432349966580056576);
    v.push(4683745813775001856);
    v.push(1191624314978336800);
    v.push(4611756662317916160);
    v.push(4625338105090543616);
    v.push(140806208356480);
    v.push(1688987371057664);
    v.push(9288708641522688);
    v.push(153403870897537280);
    v.push(281550411726850);
    v.push(2401883155071024);
    v.push(1206964838111645696);
    v.push(166705754384925184);
    v.push(36039792408011264);
    v.push(10376580514281768960);
    v.push(9148486532465664);
    v.push(578787319189340418);
    v.push(398007816633254020);
    v.push(2341872150903791616);
    v.push(2314850762536009728);
    v.push(297238127310798880);
    v.push(2251868801728768);
    v.push(2594082183614301184);
    v.push(820222482337235456);
    v.push(37717655469424904);
    v.push(577596144088011012);
    v.push(1152991874030502016);
    v.push(3171026856472219648);
    v.push(20415869351890944);
    v.push(4611844348286345472);
    v.push(2455605323386324224);
    v.push(140754676613632);
    v.push(1740713828645089416);
    v.push(58361257132164);
    v.push(70370893791232);
    v.push(9227880322828615684);
    v.push(72092778695295040);
    v.push(577023839834341392);
    v.push(4723150143565660416);
    v.push(563087661073408);
    v.push(651083773116450);
    v.push(72128789630550047);
    v.push(153192758223054976);
    v.push(869194865525653568);
    v.push(4972009250306933248);
    v.push(1031325449119138048);
    v.push(1297041090863464576);
    v.push(580401419157405824);
    v.push(1657992643584);
    v.push(306245066729521664);
    v.push(15206439601351819394);
    v.push(14143290885479661953);
    v.push(1688988407201810);
    v.push(18065251325837538);
    v.push(1152927311403745429);
    v.push(162411078742050817);
    v.push(334255838724676);
    v.push(27323018585852550);
    proof {
        assert(v@ =~= rook_magics());
    }
    v
}

/// The bishop hash multipliers as a vector.
fn bishop_magic_numbers() -> (r: Vec<u64>)
    ensures
        r@.len() == 64,
        r@ == bishop_magics(),
{
    let mut v: Vec<u64> = Vec::new();
    v.push(306397059236266368);
    v.push(6638343277122827280);
    v.push(10377420549504106496);
    v.push(9193021019258913);
    v.push(2306408226914042898);
    v.push(10379110636817760276);
    v.push(27167319028441088);
    v.push(7566153073497751552);
    v.push(1513227076520969216);
    v.push(301917653126479936);
    v.push(72075465430409232);
    v.push(2343002121441460228);
    v.push(36033212782477344);
    v.push(9223373154083475456);
    v.push(6935629192638251008);
    v.push(72621648200664064);
    v.push(2310506081245267984);
    v.push(2533291987569153);
    v.push(146934404644733024);
    v.push(1838417834950912);
    v.push(579856052833622016);
    v.push(1729946448243595776);
    v.push(705208029025040);
    v.push(2886877732040869888);
    v.push(10092575566416331020);
    v.push(5635409948247040);
    v.push(738739924278198804);
    v.push(4648849515743289408);
    v.push(9233786889293807616);
    v.push(1155253577929753088);
    v.push(435164712050360592);
    v.push(3026700562025580641);
    v.push(4612284839965491969);
    v.push(10448650511900137472);
    v.push(571823356120080);
    v.push(40569782189687936);
    v.push(148620986995048708);
    v.push(4901113822871308288);
    v.push(4612077461748908288);
    v.push(10204585674276944);
    v.push(2534512027246592);
    v.push(5766297627561820676);
    v.push(13809969191200768);
    v.push(1153062656578422784);
    v.push(9318235838682899712);
    v.push(11533824475839595776);
    v.push(433770548762247233);
    v.push(92326036501692936);
    v.push(9227053213059129360);
    v.push(577024872779350852);
    v.push(108087561569959936);
    v.push(582151826703646856);
    v.push(81404176367767);
    v.push(316415319130374273);
    v.push(9113856212762624);
    v.push(145453328103440392);
    v.push(441392350330618400);
    v.push(1126492748710916);
    v.push(2309220790581891072);
    v.push(3026423624667006980);
    v.push(18019391702696464);
    v.push(4516931289817600);
    v.push(1450317422841301124);
    v.push(9246488805123342592);
    proof {
        assert(v@ =~= bishop_magics());
    }
    v
}

} // verus!
