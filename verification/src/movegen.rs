//! Legal-destination enumeration: for each piece of the side to move,
//! its destination squares honouring occupancy, en-passant and pins,
//! expanded into moves with promotion variants for pawns on the final
//! rank.

use vstd::prelude::*;
use crate::bitboard::{BitBoard, Direction, has_sq, shift_spec, RANK_1, RANK_8};
use crate::square::{Square, is_unit};
use crate::piece::{Colour, PieceType};
use crate::board::Board;
use crate::moves::Move;
use crate::attacks::{pawn_attack_spec, knight_spec, king_spec, rook_ray, bishop_ray};
use crate::magic::{relevant_mask, rook_dirs, bishop_dirs};
use crate::safety::pinned_upto;
use crate::state::unit_sq;
use crate::tables::{AttackTables, line_spec, lemma_test_bit};

verus! {

/// Whether the square set `pin` holds the square `piece`.
pub fn piece_is_pinned(piece: Square, pin: BitBoard) -> (r: bool)
    requires
        piece.wf(),
    ensures
        r == has_sq(pin@, piece@),
{
    proof {
        lemma_test_bit(pin@, piece@);
    }
    pin.value() & (1u64 << piece.value()) != 0
}

/// The destination squares of the piece on `s`, before pin filtering:
/// pawns capture diagonally onto enemy pieces or the en-passant target
/// and step forward onto empty squares; knights and kings use their
/// jump patterns; sliders their magic attack sets; own-occupied squares
/// are never destinations.
pub open spec fn piece_dests(b: Board, s: u64) -> u64 {
    let occ = b.bb_player@[0]@ | b.bb_player@[1]@;
    let own = b.bb_player@[b.player.idx()]@;
    let enemy = b.bb_player@[b.player.other_spec().idx()]@;
    match b.mailbox@[s as int] {
        Some(p) => match p.piece_type_spec() {
            PieceType::P => {
                let attacks = pawn_attack_spec(1u64 << s, b.player) & (enemy | b.en_passant@);
                let fwd = match b.player {
                    Colour::White => shift_spec(1u64 << s, Direction::North),
                    Colour::Black => shift_spec(1u64 << s, Direction::South),
                };
                (attacks | (fwd & !occ)) & !own
            },
            PieceType::N => knight_spec(1u64 << s) & !own,
            PieceType::B => bishop_ray(s, occ & relevant_mask(bishop_dirs(), s)) & !own,
            PieceType::R => rook_ray(s, occ & relevant_mask(rook_dirs(), s)) & !own,
            PieceType::Q => (rook_ray(s, occ & relevant_mask(rook_dirs(), s)) | bishop_ray(
                s,
                occ & relevant_mask(bishop_dirs(), s),
            )) & !own,
            PieceType::K => king_spec(1u64 << s) & !own,
        },
        None => 0u64,
    }
}

/// The destinations after the pin filter: a pinned piece may only move
/// along the full line through its king and its own square.
pub open spec fn filtered_dests(b: Board, s: u64, king: u64, pinned: u64) -> u64 {
    if has_sq(pinned, s) {
        piece_dests(b, s) & line_spec(king, s)
    } else {
        piece_dests(b, s)
    }
}

/// One move per destination square below `n`, ascending, all with the
/// same source and promotion.
pub open spec fn dest_moves(s: u64, dests: u64, promo: Option<PieceType>, n: int) -> Seq<Move>
    decreases n,
{
    if n <= 0 {
        Seq::empty()
    } else {
        dest_moves(s, dests, promo, n - 1) + (if has_sq(dests, (n - 1) as u64) {
            seq![Move::mk(Square::mk(s), Square::mk((n - 1) as u64), promo)]
        } else {
            Seq::<Move>::empty()
        })
    }
}

/// The moves generated for the piece on square `s`: nothing for squares
/// not held by the side to move; otherwise one move per filtered
/// destination, expanded into the four promotion choices when a pawn's
/// every destination lies on a final rank.
pub open spec fn square_moves(b: Board, s: u64, king: u64, pinned: u64) -> Seq<Move> {
    if !has_sq(b.bb_player@[b.player.idx()]@, s) {
        Seq::empty()
    } else {
        let d = filtered_dests(b, s, king, pinned);
        let is_pawn = match b.mailbox@[s as int] {
            Some(p) => p.piece_type_spec() == PieceType::P,
            None => false,
        };
        if is_pawn && d & (RANK_1 | RANK_8) == d {
            dest_moves(s, d, Some(PieceType::B), 64) + dest_moves(s, d, Some(PieceType::N), 64)
                + dest_moves(s, d, Some(PieceType::Q), 64) + dest_moves(
                s,
                d,
                Some(PieceType::R),
                64,
            )
        } else {
            dest_moves(s, d, None, 64)
        }
    }
}

/// The moves of all squares below `n`, in ascending square order.
pub open spec fn moves_upto(b: Board, king: u64, pinned: u64, n: int) -> Seq<Move>
    decreases n,
{
    if n <= 0 {
        Seq::empty()
    } else {
        moves_upto(b, king, pinned, n - 1) + square_moves(b, (n - 1) as u64, king, pinned)
    }
}

/// All moves of the side to move, honouring pins.
pub open spec fn gen_moves_spec(b: Board) -> Seq<Move> {
    let king = unit_sq(b.bb_pieces@[5]@ & b.bb_player@[b.player.idx()]@);
    moves_upto(b, king, pinned_upto(b, king, b.player, 64), 64)
}

/// Append one move per destination square of `d`, ascending, with the
/// given source and promotion.
fn push_moves(out: &mut Vec<Move>, s: u64, d: BitBoard, promo: Option<PieceType>)
    requires
        s < 64,
    ensures
        final(out)@ == old(out)@ + dest_moves(s, d@, promo, 64),
{
    let ghost base = out@;
    let mut t: u64 = 0;
    proof {
        assert(base + dest_moves(s, d@, promo, 0) =~= base);
    }
    while t < 64
        invariant
            t <= 64,
            s < 64,
            out@ == base + dest_moves(s, d@, promo, t as int),
        decreases 64 - t,
    {
        proof {
            lemma_test_bit(d@, t);
        }
        if d.value() & (1u64 << t) != 0 {
            let src = match Square::from_index(s) {
                Ok(q) => q,
                Err(_) => vstd::pervasive::unreached(),
            };
            let dst = match Square::from_index(t) {
                Ok(q) => q,
                Err(_) => vstd::pervasive::unreached(),
            };
            out.push(Move::new(src, dst, promo));
            proof {
                assert(out@ =~= base + dest_moves(s, d@, promo, t + 1));
            }
        } else {
            proof {
                assert(out@ =~= base + dest_moves(s, d@, promo, t + 1));
            }
        }
        t = t + 1;
    }
}

impl Board {
    /// Enumerate the side to move's moves: per own piece, the
    /// destination set of its kind intersected against occupancy and
    /// pins, pawns expanding into the four promotion choices when every
    /// destination lies on a final rank.
    pub fn generate_moves(&self, tables: &AttackTables) -> (r: Vec<Move>)
        requires
            self.wf(),
            tables.wf(),
            is_unit(self.bb_pieces@[5]@ & self.bb_player@[self.player.idx()]@),
        ensures
            r@ == gen_moves_spec(*self),
    {
        let king_bb = self.bb_pieces[5].and(self.bb_player[self.player.index()]);
        let king = match Square::from_bitboard(king_bb) {
            Ok(q) => q,
            Err(_) => vstd::pervasive::unreached(),
        };
        proof {
            let kv = king_bb@;
            let s0 = king@;
            assert(forall|a: u64, b: u64| a < 64 && b < 64 && (1u64 << a) == (1u64 << b) ==> a
                == b) by (bit_vector);
            assert(unit_sq(kv) == s0);
        }
        let pinned = self.pinned_to(tables, king, self.player);
        let occ = self.occupancy();
        let own = self.bb_player[self.player.index()];
        let enemy = self.bb_player[self.player.other().index()];
        let mut out: Vec<Move> = Vec::new();
        let mut s: u64 = 0;
        while s < 64
            invariant
                s <= 64,
                self.wf(),
                tables.wf(),
                king.wf(),
                king@ == unit_sq(self.bb_pieces@[5]@ & self.bb_player@[self.player.idx()]@),
                pinned@ == pinned_upto(*self, king@, self.player, 64),
                occ@ == (self.bb_player@[0]@ | self.bb_player@[1]@),
                own@ == self.bb_player@[self.player.idx()]@,
                enemy@ == self.bb_player@[self.player.other_spec().idx()]@,
                out@ == moves_upto(*self, king@, pinned@, s as int),
            decreases 64 - s,
        {
            proof {
                lemma_test_bit(own@, s);
            }
            if own.value() & (1u64 << s) != 0 {
                let sq = match Square::from_index(s) {
                    Ok(q) => q,
                    Err(_) => vstd::pervasive::unreached(),
                };
                proof {
                    assert(crate::board::square_consistent(
                        self.mailbox@,
                        self.bb_player@,
                        self.bb_pieces@,
                        s,
                    ));
                }
                let p = match self.mailbox.get_piece(sq) {
                    Some(p) => p,
                    None => vstd::pervasive::unreached(),
                };
                let src_bb = BitBoard::from_unshifted(s);
                let raw: BitBoard = match p.piece_type() {
                    PieceType::P => {
                        let attacks = PieceType::pawn_attack(src_bb, self.player).and(
                            enemy.or(self.en_passant),
                        );
                        let fwd = match self.player {
                            Colour::White => src_bb.shift(Direction::North),
                            Colour::Black => src_bb.shift(Direction::South),
                        };
                        attacks.or(fwd.and(occ.not())).and(own.not())
                    },
                    PieceType::N => PieceType::knight_attack(tables, sq).and(own.not()),
                    PieceType::B => PieceType::bishop_attack(tables, sq, occ).and(own.not()),
                    PieceType::R => PieceType::rook_attack(tables, sq, occ).and(own.not()),
                    PieceType::Q => PieceType::queen_attack(tables, sq, occ).and(own.not()),
                    PieceType::K => PieceType::king_attack(tables, sq).and(own.not()),
                };
                proof {
                    assert(raw@ == piece_dests(*self, s));
                }
                let d: BitBoard;
                proof {
                    lemma_test_bit(pinned@, s);
                }
                if pinned.value() & (1u64 << s) != 0 {
                    d = raw.and(tables.line[(king.value() * 64 + s) as usize]);
                } else {
                    d = raw;
                }
                proof {
                    assert(d@ == filtered_dests(*self, s, king@, pinned@));
                }
                let ghost pre = out@;
                if p.piece_type() == PieceType::P && d.value() & (RANK_1 | RANK_8) == d.value() {
                    push_moves(&mut out, s, d, Some(PieceType::B));
                    push_moves(&mut out, s, d, Some(PieceType::N));
                    push_moves(&mut out, s, d, Some(PieceType::Q));
                    push_moves(&mut out, s, d, Some(PieceType::R));
                    proof {
                        assert(out@ =~= pre + square_moves(*self, s, king@, pinned@));
                    }
                } else {
                    push_moves(&mut out, s, d, None);
                    proof {
                        assert(out@ =~= pre + square_moves(*self, s, king@, pinned@));
                    }
                }
                proof {
                    assert(out@ =~= moves_upto(*self, king@, pinned@, s + 1));
                }
            } else {
                proof {
                    assert(square_moves(*self, s, king@, pinned@) =~= Seq::<Move>::empty());
                    assert(out@ =~= moves_upto(*self, king@, pinned@, s + 1));
                }
            }
            s = s + 1;
        }
        out
    }
}

} // verus!
