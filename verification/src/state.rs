//! Per-ply search state: the fields copied and updated from move to
//! move, and the king-safety sets recomputed from the board each ply.

use vstd::prelude::*;
use crate::bitboard::BitBoard;
use crate::square::{Square, is_unit};
use crate::board::{Board, CastlingRights};
use crate::moves::Move;
use crate::safety::{attackers_spec, pinned_upto, pinners_upto};
use crate::tables::AttackTables;

verus! {

/// The square index of a one-square set.
pub open spec fn unit_sq(b: u64) -> u64 {
    choose|s: u64| s < 64 && b == (1u64 << s)
}

/// Per-ply state beside the board: counters and castling data carried
/// forward, and king-safety sets recomputed after each move.
pub struct State {
    /// Half-moves since the last capture or pawn move.
    pub rule_50: u32,
    /// The ply count.
    pub ply: u32,
    /// The castling availability carried with this ply.
    pub castling: CastlingRights,
    /// The en-passant target, as a singleton set, if any.
    pub en_passant: Option<BitBoard>,
    /// The opposing pieces giving check.
    pub bb_checkers: BitBoard,
    /// The own pieces pinned against the king.
    pub bb_pinned: BitBoard,
    /// The opposing sliders that pin them.
    pub bb_pinners: BitBoard,
    /// The move that led here, if any.
    pub previous_move: Option<Move>,
    /// The state before that move, if chained.
    pub previous_state: Option<Box<State>>,
}

impl State {
    /// Recompute the king-safety sets from `board`: the checkers of the
    /// side to move's king, and the pieces pinned to it with their
    /// pinners.  The carried fields stay as they are.
    pub fn apply_board(&mut self, board: &Board, tables: &AttackTables)
        requires
            board.wf(),
            tables.wf(),
            is_unit(board.bb_pieces@[5]@ & board.bb_player@[board.player.idx()]@),
        ensures
            final(self).bb_checkers@ == (attackers_spec(
                *board,
                unit_sq(board.bb_pieces@[5]@ & board.bb_player@[board.player.idx()]@),
                board.bb_player@[0]@ | board.bb_player@[1]@,
            ) & board.bb_player@[board.player.other_spec().idx()]@),
            final(self).bb_pinned@ == pinned_upto(
                *board,
                unit_sq(board.bb_pieces@[5]@ & board.bb_player@[board.player.idx()]@),
                board.player,
                64,
            ),
            final(self).bb_pinners@ == pinners_upto(
                *board,
                unit_sq(board.bb_pieces@[5]@ & board.bb_player@[board.player.idx()]@),
                board.player,
                64,
            ),
            final(self).rule_50 == old(self).rule_50,
            final(self).ply == old(self).ply,
            final(self).castling == old(self).castling,
            final(self).en_passant == old(self).en_passant,
            final(self).previous_move == old(self).previous_move,
            final(self).previous_state == old(self).previous_state,
    {
        let king_bb = self_king(board);
        let king = match Square::from_bitboard(king_bb) {
            Ok(q) => q,
            Err(_) => vstd::pervasive::unreached(),
        };
        proof {
            let kv = king_bb@;
            let s0 = king@;
            assert(forall|a: u64, b: u64| a < 64 && b < 64 && (1u64 << a) == (1u64 << b) ==> a
                == b) by (bit_vector);
            assert(kv == (1u64 << s0));
            assert(unit_sq(kv) == s0);
        }
        self.bb_checkers = board.attackers_of_king(tables, king, board.player);
        self.bb_pinned = board.pinned_to(tables, king, board.player);
        self.bb_pinners = board.pinners_to(tables, king, board.player);
    }

    /// The next ply's state: counters, castling data and en-passant
    /// target carried over, the recomputed sets emptied, and no history
    /// links.
    pub fn next(&self) -> (r: State)
        ensures
            r.rule_50 == self.rule_50,
            r.ply == self.ply,
            r.castling == self.castling,
            r.en_passant == self.en_passant,
            r.bb_checkers@ == 0u64,
            r.bb_pinned@ == 0u64,
            r.bb_pinners@ == 0u64,
            r.previous_move is None,
            r.previous_state is None,
    {
        State {
            rule_50: self.rule_50,
            ply: self.ply,
            castling: self.castling,
            en_passant: self.en_passant,
            bb_checkers: BitBoard::zero(),
            bb_pinned: BitBoard::zero(),
            bb_pinners: BitBoard::zero(),
            previous_move: None,
            previous_state: None,
        }
    }
}

impl Default for State {
    /// The placeholder state: zero counters, no castling, no
    /// en-passant, empty sets, no history.
    fn default() -> (r: Self)
        ensures
            r.rule_50 == 0,
            r.ply == 0,
            r.castling == (CastlingRights {
                white_queen: false,
                white_king: false,
                black_queen: false,
                black_king: false,
            }),
            r.en_passant is None,
            r.bb_checkers@ == 0u64,
            r.bb_pinned@ == 0u64,
            r.bb_pinners@ == 0u64,
            r.previous_move is None,
            r.previous_state is None,
    {
        State {
            rule_50: 0,
            ply: 0,
            castling: CastlingRights::none(),
            en_passant: None,
            bb_checkers: BitBoard::zero(),
            bb_pinned: BitBoard::zero(),
            bb_pinners: BitBoard::zero(),
            previous_move: None,
            previous_state: None,
        }
    }
}

/// The side to move's king, as a one-square set.
fn self_king(board: &Board) -> (r: BitBoard)
    requires
        board.wf(),
    ensures
        r@ == (board.bb_pieces@[5]@ & board.bb_player@[board.player.idx()]@),
{
    board.bb_pieces[5].and(board.bb_player[board.player.index()])
}

} // verus!
