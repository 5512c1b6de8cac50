//! King-safety analysis: who attacks a square, who checks a king, and
//! which pieces are pinned against it.

use vstd::prelude::*;
use crate::bitboard::{BitBoard, has_sq};
use crate::square::Square;
use crate::piece::{Colour, PieceType};
use crate::board::Board;
use crate::attacks::{pawn_attack_spec, knight_spec, king_spec, rook_ray, bishop_ray};
use crate::magic::{relevant_mask, rook_dirs, bishop_dirs};
use crate::tables::{AttackTables, line_between_spec, line_between, lemma_test_bit};

verus! {

/// The set of all pieces, of either colour, that attack square `s`
/// under the given full-board occupancy: pawns a diagonal step away,
/// knights and kings a table pattern away, and sliders whose magic
/// lookup under `occ` reaches `s`.
pub open spec fn attackers_spec(b: Board, s: u64, occ: u64) -> u64 {
    (((((pawn_attack_spec(1u64 << s, Colour::White) & b.bb_pieces@[0]@ & b.bb_player@[1]@) | (
    pawn_attack_spec(1u64 << s, Colour::Black) & b.bb_pieces@[0]@ & b.bb_player@[0]@)) | (
    knight_spec(1u64 << s) & b.bb_pieces@[1]@)) | (king_spec(1u64 << s) & b.bb_pieces@[5]@)) | (
    bishop_ray(s, occ & relevant_mask(bishop_dirs(), s)) & (b.bb_pieces@[2]@
        | b.bb_pieces@[4]@))) | (rook_ray(s, occ & relevant_mask(rook_dirs(), s)) & (
    b.bb_pieces@[3]@ | b.bb_pieces@[4]@))
}

/// Whether square `s` holds a slider (bishop, rook or queen) of the
/// colour opposing `colour`.
pub open spec fn enemy_slider_at(b: Board, colour: Colour, s: u64) -> bool {
    has_sq(
        (b.bb_pieces@[2]@ | b.bb_pieces@[3]@ | b.bb_pieces@[4]@) & b.bb_player@[
            colour.other_spec().idx()]@,
        s,
    )
}

/// What slider square `s` contributes to the pin analysis against the
/// king on `king`: when `s` holds an opposing slider and exactly one
/// piece stands strictly between it and the king, and that piece
/// belongs to the defending colour, the piece is pinned.
pub open spec fn pin_contrib(b: Board, king: u64, colour: Colour, s: u64) -> u64 {
    if enemy_slider_at(b, colour, s) {
        let seg = line_between_spec(s, king) & (b.bb_player@[0]@ | b.bb_player@[1]@);
        if seg != 0 && seg & (seg - 1) as u64 == 0 && seg & b.bb_player@[colour.idx()]@ == seg {
            seg
        } else {
            0u64
        }
    } else {
        0u64
    }
}

/// Like [`pin_contrib`], but contributing the pinning slider itself.
pub open spec fn pinner_contrib(b: Board, king: u64, colour: Colour, s: u64) -> u64 {
    if pin_contrib(b, king, colour, s) != 0 {
        1u64 << s
    } else {
        0u64
    }
}

/// The union of the pin contributions of the squares below `n`.
pub open spec fn pinned_upto(b: Board, king: u64, colour: Colour, n: int) -> u64
    decreases n,
{
    if n <= 0 {
        0u64
    } else {
        pinned_upto(b, king, colour, n - 1) | pin_contrib(b, king, colour, (n - 1) as u64)
    }
}

/// The union of the pinner contributions of the squares below `n`.
pub open spec fn pinners_upto(b: Board, king: u64, colour: Colour, n: int) -> u64
    decreases n,
{
    if n <= 0 {
        0u64
    } else {
        pinners_upto(b, king, colour, n - 1) | pinner_contrib(b, king, colour, (n - 1) as u64)
    }
}

/// Union with the empty set changes nothing, and the wrapping
/// decrement of a nonzero value is its plain decrement.
proof fn lemma_pin_bits(acc: u64, sv: u64)
    by (bit_vector)
    ensures
        acc | 0u64 == acc,
        sv != 0 ==> sv & sv.wrapping_sub(1) == sv & (sv - 1) as u64,
{
}

impl Board {
    /// The set of all pieces of either colour attacking `square` under
    /// the given occupancy.
    pub fn attackers_of(&self, tables: &AttackTables, square: Square, occupancy: BitBoard) -> (r:
        BitBoard)
        requires
            self.wf(),
            tables.wf(),
            square.wf(),
        ensures
            r@ == attackers_spec(*self, square@, occupancy@),
    {
        let sq_bb = BitBoard::from_unshifted(square.value());
        let pawns = self.bb_pieces[0];
        let white_pawn_pattern = PieceType::pawn_attack(sq_bb, Colour::White);
        let black_pawn_pattern = PieceType::pawn_attack(sq_bb, Colour::Black);
        let pawn_attackers = white_pawn_pattern.and(pawns).and(self.bb_player[1]).or(
            black_pawn_pattern.and(pawns).and(self.bb_player[0]),
        );
        let knight_attackers = PieceType::knight_attack(tables, square).and(self.bb_pieces[1]);
        let king_attackers = PieceType::king_attack(tables, square).and(self.bb_pieces[5]);
        let occ = occupancy;
        let diag = PieceType::bishop_attack(tables, square, occ).and(
            self.bb_pieces[2].or(self.bb_pieces[4]),
        );
        let ortho = PieceType::rook_attack(tables, square, occ).and(
            self.bb_pieces[3].or(self.bb_pieces[4]),
        );
        pawn_attackers.or(knight_attackers).or(king_attackers).or(diag).or(ortho)
    }

    /// The opposing pieces checking the king of `king_colour` on
    /// `square`, under the board's own full occupancy.
    pub fn attackers_of_king(&self, tables: &AttackTables, square: Square, king_colour: Colour)
        -> (r: BitBoard)
        requires
            self.wf(),
            tables.wf(),
            square.wf(),
        ensures
            r@ == (attackers_spec(
                *self,
                square@,
                self.bb_player@[0]@ | self.bb_player@[1]@,
            ) & self.bb_player@[king_colour.other_spec().idx()]@),
    {
        let occ = self.occupancy();
        self.attackers_of(tables, square, occ).and(self.bb_player[king_colour.other().index()])
    }

    /// The pieces of `colour` pinned against their king on
    /// `king_square`: for each opposing slider, the sole defending
    /// piece standing strictly between it and the king, if there is
    /// exactly one such piece.
    pub fn pinned_to(&self, tables: &AttackTables, king_square: Square, colour: Colour) -> (r:
        BitBoard)
        requires
            self.wf(),
            tables.wf(),
            king_square.wf(),
        ensures
            r@ == pinned_upto(*self, king_square@, colour, 64),
    {
        let sliders = self.bb_pieces[2].or(self.bb_pieces[3]).or(self.bb_pieces[4]).and(
            self.bb_player[colour.other().index()],
        );
        let occ = self.occupancy();
        let own = self.bb_player[colour.index()];
        let mut acc = BitBoard::zero();
        let mut s: u64 = 0;
        while s < 64
            invariant
                s <= 64,
                self.wf(),
                tables.wf(),
                king_square.wf(),
                sliders@ == (self.bb_pieces@[2]@ | self.bb_pieces@[3]@ | self.bb_pieces@[4]@)
                    & self.bb_player@[colour.other_spec().idx()]@,
                occ@ == (self.bb_player@[0]@ | self.bb_player@[1]@),
                own@ == self.bb_player@[colour.idx()]@,
                acc@ == pinned_upto(*self, king_square@, colour, s as int),
            decreases 64 - s,
        {
            proof {
                lemma_test_bit(sliders@, s);
            }
            if sliders.value() & (1u64 << s) != 0 {
                let sq = match Square::from_index(s) {
                    Ok(q) => q,
                    Err(_) => vstd::pervasive::unreached(),
                };
                let seg = line_between(tables, sq, king_square).and(occ);
                let sv = seg.value();
                if sv != 0 && sv & sv.wrapping_sub(1) == 0 && seg.and(own).value() == sv {
                    acc = acc.or(seg);
                    proof {
                        lemma_pin_bits(acc@, sv);
                        assert(pin_contrib(*self, king_square@, colour, s) == sv);
                    }
                } else {
                    proof {
                        lemma_pin_bits(acc@, sv);
                        assert(pin_contrib(*self, king_square@, colour, s) == 0u64);
                    }
                }
            } else {
                proof {
                    lemma_pin_bits(acc@, 1);
                    assert(!enemy_slider_at(*self, colour, s));
                    assert(pin_contrib(*self, king_square@, colour, s) == 0u64);
                }
            }
            s = s + 1;
        }
        acc
    }

    /// The opposing sliders that pin a piece of `colour` against its
    /// king on `king_square`.
    pub fn pinners_to(&self, tables: &AttackTables, king_square: Square, colour: Colour) -> (r:
        BitBoard)
        requires
            self.wf(),
            tables.wf(),
            king_square.wf(),
        ensures
            r@ == pinners_upto(*self, king_square@, colour, 64),
    {
        let sliders = self.bb_pieces[2].or(self.bb_pieces[3]).or(self.bb_pieces[4]).and(
            self.bb_player[colour.other().index()],
        );
        let occ = self.occupancy();
        let own = self.bb_player[colour.index()];
        let mut acc = BitBoard::zero();
        let mut s: u64 = 0;
        while s < 64
            invariant
                s <= 64,
                self.wf(),
                tables.wf(),
                king_square.wf(),
                sliders@ == (self.bb_pieces@[2]@ | self.bb_pieces@[3]@ | self.bb_pieces@[4]@)
                    & self.bb_player@[colour.other_spec().idx()]@,
                occ@ == (self.bb_player@[0]@ | self.bb_player@[1]@),
                own@ == self.bb_player@[colour.idx()]@,
                acc@ == pinners_upto(*self, king_square@, colour, s as int),
            decreases 64 - s,
        {
            proof {
                lemma_test_bit(sliders@, s);
            }
            if sliders.value() & (1u64 << s) != 0 {
                let sq = match Square::from_index(s) {
                    Ok(q) => q,
                    Err(_) => vstd::pervasive::unreached(),
                };
                let seg = line_between(tables, sq, king_square).and(occ);
                let sv = seg.value();
                if sv != 0 && sv & sv.wrapping_sub(1) == 0 && seg.and(own).value() == sv {
                    acc = acc.or(BitBoard::from_unshifted(s));
                    proof {
                        lemma_pin_bits(acc@, sv);
                        assert(pin_contrib(*self, king_square@, colour, s) == sv);
                        assert(pinner_contrib(*self, king_square@, colour, s) == (1u64 << s));
                    }
                } else {
                    proof {
                        lemma_pin_bits(acc@, sv);
                        assert(pin_contrib(*self, king_square@, colour, s) == 0u64);
                    }
                }
            } else {
                proof {
                    lemma_pin_bits(acc@, 1);
                    assert(!enemy_slider_at(*self, colour, s));
                    assert(pin_contrib(*self, king_square@, colour, s) == 0u64);
                }
            }
            s = s + 1;
        }
        acc
    }
}

} // verus!
