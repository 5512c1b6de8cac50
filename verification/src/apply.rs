//! Applying a move to a position: the state transition that relocates
//! the piece, resolves captures (including en passant), promotes pawns,
//! relocates the rook on castling, and updates side to move, castling
//! rights, en-passant target and the move counter.

use vstd::prelude::*;
use crate::bitboard::{BitBoard, has_sq};
use crate::square::Square;
use crate::piece::{Colour, Piece, PieceType};
use crate::board::Board;
use crate::moves::Move;
use crate::tables::lemma_test_bit;

verus! {

/// Why a move cannot be applied.
#[derive(Copy, Clone, Debug, PartialEq, Eq, Structural)]
pub enum MoveError {
    /// A two-square horizontal king move whose destination is none of
    /// the four canonical castling destinations.
    InvalidCastlingDestination,
}

/// The mailbox after relocating whatever stands on `from` to `to`; a
/// no-op when `from` is empty.
pub open spec fn move_sq_spec(mb: Seq<Option<Piece>>, from: int, to: int) -> Seq<Option<Piece>> {
    match mb[from] {
        Some(p) => mb.update(from, None).update(to, Some(p)),
        None => mb,
    }
}

/// The rank a pawn of `c` promotes on.
pub open spec fn final_rank(c: Colour) -> u64 {
    match c {
        Colour::White => 7u64,
        Colour::Black => 0u64,
    }
}

/// A two-square horizontal move: same rank, files two apart.
pub open spec fn castle_shape(src: u64, dst: u64) -> bool {
    (src >> 3u64) == (dst >> 3u64) && ((src & 7) + 2 == (dst & 7) || (dst & 7) + 2 == (src & 7))
}

/// The rook's source square for a canonical castling destination.
pub open spec fn castle_rook_from(dst: u64) -> u64 {
    if dst == 6 {
        7u64
    } else if dst == 2 {
        0u64
    } else if dst == 62 {
        63u64
    } else {
        56u64
    }
}

/// The rook's destination square for a canonical castling destination.
pub open spec fn castle_rook_to(dst: u64) -> u64 {
    if dst == 6 {
        5u64
    } else if dst == 2 {
        3u64
    } else if dst == 62 {
        61u64
    } else {
        59u64
    }
}

/// A pawn double push: the destination two ranks from the source.
pub open spec fn double_push(src: u64, dst: u64) -> bool {
    src + 16 == dst || dst + 16 == src
}

/// The square a double-pushing pawn skipped: one step from the source
/// toward the destination.
pub open spec fn skipped_sq(src: u64, dst: u64) -> u64 {
    if src + 16 == dst {
        (src + 8) as u64
    } else {
        (src - 8) as u64
    }
}

/// The square of the pawn captured en passant: one rank behind the
/// capturing pawn's destination, toward the mover's home rank.
pub open spec fn ep_victim(player: Colour, dst: u64) -> u64 {
    match player {
        Colour::White => (dst - 8) as u64,
        Colour::Black => (dst + 8) as u64,
    }
}

/// The mailbox after applying move `m` to board `b`: promotion replaces
/// the pawn at the source, an en-passant capture removes the passed
/// pawn, castling relocates the rook, and finally the moving piece is
/// relocated, capturing by overwrite.
pub open spec fn apply_mb_spec(b: Board, m: Move) -> Seq<Option<Piece>> {
    let src = m.source_spec()@ as int;
    let dst = m.destination_spec()@ as int;
    let p = b.mailbox@[src]->0;
    let mb1 = if p.piece_type_spec() == PieceType::P && (m.destination_spec()@ >> 3u64)
        == final_rank(b.player) {
        b.mailbox@.update(src, Some(Piece::mk(b.player, m.promotion_spec()->0)))
    } else {
        b.mailbox@
    };
    let mb2 = if p.piece_type_spec() == PieceType::P && has_sq(
        b.en_passant@,
        m.destination_spec()@,
    ) {
        mb1.update(ep_victim(b.player, m.destination_spec()@) as int, None)
    } else {
        mb1
    };
    let mb3 = if p.piece_type_spec() == PieceType::K && castle_shape(
        m.source_spec()@,
        m.destination_spec()@,
    ) {
        move_sq_spec(
            mb2,
            castle_rook_from(m.destination_spec()@) as int,
            castle_rook_to(m.destination_spec()@) as int,
        )
    } else {
        mb2
    };
    move_sq_spec(mb3, src, dst)
}

impl Board {
    /// Apply `m`, assumed to come from the move generator for this
    /// position: relocate the mover (capturing by overwrite), promote
    /// on the final rank, remove the passed pawn on an en-passant
    /// capture, relocate the rook and forfeit both castling rights on
    /// castling (and on any king or rook move), set the en-passant
    /// target after a double push and clear it otherwise, flip the side
    /// to move and increment the fullmove number.  A two-square king
    /// move to a non-canonical destination is a reportable error that
    /// leaves the position untouched.
    pub fn apply_move(&mut self, m: &Move) -> (r: Result<(), MoveError>)
        requires
            old(self).wf(),
            m.source_spec().wf(),
            m.destination_spec().wf(),
            m.source_spec()@ != m.destination_spec()@,
            old(self).mailbox@[m.source_spec()@ as int] matches Some(p) && p.colour_spec()
                == old(self).player,
            !(old(self).mailbox@[m.destination_spec()@ as int] matches Some(q)
                && q.piece_type_spec() == PieceType::K),
            !(old(self).mailbox@[m.destination_spec()@ as int] matches Some(q) && q.colour_spec()
                == old(self).player),
            (old(self).mailbox@[m.source_spec()@ as int]->0.piece_type_spec() == PieceType::P
                && (m.destination_spec()@ >> 3u64) == final_rank(old(self).player))
                ==> m.promotion_spec() is Some,
            (old(self).mailbox@[m.source_spec()@ as int]->0.piece_type_spec() == PieceType::P
                && has_sq(old(self).en_passant@, m.destination_spec()@)) ==> ((old(self).player
                == Colour::White ==> m.destination_spec()@ >= 8) && (old(self).player
                == Colour::Black ==> m.destination_spec()@ < 56)),
            old(self).full_moves < 0xffff_ffff,
        ensures
            match r {
                Ok(_) => {
                    let p = old(self).mailbox@[m.source_spec()@ as int]->0;
                    &&& final(self).wf()
                    &&& final(self).mailbox@ == apply_mb_spec(*old(self), *m)
                    &&& final(self).player == old(self).player.other_spec()
                    &&& final(self).full_moves == old(self).full_moves + 1
                    &&& final(self).half_moves == old(self).half_moves
                    &&& final(self).en_passant@ == (if p.piece_type_spec() == PieceType::P
                        && double_push(m.source_spec()@, m.destination_spec()@) {
                        1u64 << skipped_sq(m.source_spec()@, m.destination_spec()@)
                    } else {
                        0u64
                    })
                    &&& final(self).castling_rights == (if p.piece_type_spec() == PieceType::K
                        || p.piece_type_spec() == PieceType::R {
                        old(self).castling_rights.clear_colour_spec(old(self).player)
                    } else {
                        old(self).castling_rights
                    })
                    &&& final(self).previous == old(self).previous
                    &&& !(p.piece_type_spec() == PieceType::K && castle_shape(
                        m.source_spec()@,
                        m.destination_spec()@,
                    ) && !(m.destination_spec()@ == 6 || m.destination_spec()@ == 2
                        || m.destination_spec()@ == 62 || m.destination_spec()@ == 58))
                },
                Err(e) => {
                    let p = old(self).mailbox@[m.source_spec()@ as int]->0;
                    &&& e == MoveError::InvalidCastlingDestination
                    &&& *final(self) == *old(self)
                    &&& p.piece_type_spec() == PieceType::K && castle_shape(
                        m.source_spec()@,
                        m.destination_spec()@,
                    ) && !(m.destination_spec()@ == 6 || m.destination_spec()@ == 2
                        || m.destination_spec()@ == 62 || m.destination_spec()@ == 58)
                },
            },
    {
        let src = m.source();
        let dst = m.destination();
        let sv = src.value();
        let dv = dst.value();
        let p = match self.mailbox.get_piece(src) {
            Some(p) => p,
            None => vstd::pervasive::unreached(),
        };
        let is_pawn = p.piece_type() == PieceType::P;
        let is_king = p.piece_type() == PieceType::K;
        let is_rook = p.piece_type() == PieceType::R;
        proof {
            assert(sv & 7 <= 7 && dv & 7 <= 7) by (bit_vector);
        }
        let castling = is_king && (sv >> 3u64) == (dv >> 3u64) && ((sv & 7) + 2 == (dv & 7) || (
        dv & 7) + 2 == (sv & 7));
        if castling && !(dv == 6 || dv == 2 || dv == 62 || dv == 58) {
            return Err(MoveError::InvalidCastlingDestination);
        }
        proof {
            lemma_test_bit(self.en_passant@, dv);
        }
        let ep_capture = is_pawn && self.en_passant.value() & (1u64 << dv) != 0;
        let dbl = is_pawn && (sv + 16 == dv || dv + 16 == sv);
        let new_ep: u64 = if dbl {
            if sv + 16 == dv {
                1u64 << (sv + 8)
            } else {
                1u64 << (sv - 8)
            }
        } else {
            0
        };
        let mover = self.player;
        self.full_moves = self.full_moves + 1;
        self.player = mover.other();
        self.en_passant = BitBoard::from_shifted(new_ep);
        let promotes = is_pawn && (match mover {
            Colour::White => dv >> 3u64 == 7,
            Colour::Black => dv >> 3u64 == 0,
        });
        if promotes {
            let promo = match m.promotion() {
                Some(t) => t,
                None => vstd::pervasive::unreached(),
            };
            self.set_piece(src, Piece::new(mover, promo));
        }
        if ep_capture {
            let cap = match mover {
                Colour::White => dv - 8,
                Colour::Black => dv + 8,
            };
            let cap_sq = match Square::from_index(cap) {
                Ok(q) => q,
                Err(_) => vstd::pervasive::unreached(),
            };
            self.remove_square(cap_sq);
        }
        if castling {
            let rf: u64 = if dv == 6 {
                7
            } else if dv == 2 {
                0
            } else if dv == 62 {
                63
            } else {
                56
            };
            let rt: u64 = if dv == 6 {
                5
            } else if dv == 2 {
                3
            } else if dv == 62 {
                61
            } else {
                59
            };
            let rf_sq = match Square::from_index(rf) {
                Ok(q) => q,
                Err(_) => vstd::pervasive::unreached(),
            };
            let rt_sq = match Square::from_index(rt) {
                Ok(q) => q,
                Err(_) => vstd::pervasive::unreached(),
            };
            self.move_square(rf_sq, rt_sq);
        }
        if is_king || is_rook {
            self.castling_rights = self.castling_rights.clear_colour(mover);
        }
        self.move_square(src, dst);
        proof {
            assert(self.mailbox@ =~= apply_mb_spec(*old(self), *m));
        }
        Ok(())
    }
}

} // verus!
