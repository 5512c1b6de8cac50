//! The aggregate position state: per-piece-type and per-colour square
//! sets, a dense mailbox kept consistent with them, side to move,
//! castling rights, en-passant target and move counters.

use vstd::prelude::*;
use crate::bitboard::{BitBoard, has_sq};
use crate::square::Square;
use crate::piece::{Colour, Piece, PieceType};

verus! {

/// Square `t` of `x | (1 << s)` is `t == s` or a square of `x`; square
/// `t` of `x & !(1 << s)` is a square of `x` other than `s`.
proof fn lemma_update_bits(x: u64, s: u64)
    by (bit_vector)
    requires
        s < 64,
    ensures
        forall|t: u64|
            #![trigger (x | (1u64 << s)) >> t]
            t < 64 ==> ((x | (1u64 << s)) >> t) & 1u64 == (if t == s {
                1u64
            } else {
                (x >> t) & 1u64
            }),
        forall|t: u64|
            #![trigger (x & !(1u64 << s)) >> t]
            t < 64 ==> ((x & !(1u64 << s)) >> t) & 1u64 == (if t == s {
                0u64
            } else {
                (x >> t) & 1u64
            }),
{
}

/// The empty set has no squares.
proof fn lemma_zero_bits()
    by (bit_vector)
    ensures
        forall|t: u64| t < 64 ==> (0u64 >> t) & 1u64 == 0u64,
{
}

/// A dense per-square piece lookup.
pub struct Mailbox {
    pieces: Vec<Option<Piece>>,
}

impl View for Mailbox {
    type V = Seq<Option<Piece>>;

    closed spec fn view(&self) -> Seq<Option<Piece>> {
        self.pieces@
    }
}

impl Mailbox {
    /// The empty mailbox: no square holds a piece.
    pub fn new() -> (r: Self)
        ensures
            r@.len() == 64,
            forall|i: int| 0 <= i < 64 ==> r@[i] is None,
    {
        let mut pieces: Vec<Option<Piece>> = Vec::new();
        let mut i: usize = 0;
        while i < 64
            invariant
                pieces@.len() == i,
                i <= 64,
                forall|j: int| 0 <= j < i ==> pieces@[j] is None,
            decreases 64 - i,
        {
            pieces.push(None);
            i = i + 1;
        }
        Mailbox { pieces }
    }

    /// Put `piece` on `square`, replacing whatever was there.
    pub fn set_piece(&mut self, square: Square, piece: Piece)
        requires
            square.wf(),
            old(self)@.len() == 64,
        ensures
            final(self)@ == old(self)@.update(square@ as int, Some(piece)),
    {
        self.pieces[square.value() as usize] = Some(piece);
    }

    /// Empty `square`.
    pub fn remove_piece(&mut self, square: Square)
        requires
            square.wf(),
            old(self)@.len() == 64,
        ensures
            final(self)@ == old(self)@.update(square@ as int, None::<Piece>),
    {
        self.pieces[square.value() as usize] = None;
    }

    /// The piece on `square`, if any.
    pub fn get_piece(&self, square: Square) -> (r: Option<Piece>)
        requires
            square.wf(),
            self@.len() == 64,
        ensures
            r == self@[square@ as int],
    {
        self.pieces[square.value() as usize]
    }
}

impl Default for Mailbox {
    /// The empty mailbox.
    fn default() -> (r: Self)
        ensures
            r@.len() == 64,
            forall|i: int| 0 <= i < 64 ==> r@[i] is None,
    {
        Mailbox::new()
    }
}

/// Which castlings are still available, per colour and side.
#[derive(Copy, Clone, Debug, PartialEq, Eq, Structural)]
pub struct CastlingRights {
    /// White may still castle queen-side (rook from a1).
    pub white_queen: bool,
    /// White may still castle king-side (rook from h1).
    pub white_king: bool,
    /// Black may still castle queen-side (rook from a8).
    pub black_queen: bool,
    /// Black may still castle king-side (rook from h8).
    pub black_king: bool,
}

impl CastlingRights {
    /// No castling available.
    pub fn none() -> (r: Self)
        ensures
            r == (CastlingRights {
                white_queen: false,
                white_king: false,
                black_queen: false,
                black_king: false,
            }),
    {
        CastlingRights { white_queen: false, white_king: false, black_queen: false,
            black_king: false }
    }

    /// Both flags of `colour` cleared.
    pub fn clear_colour(self, colour: Colour) -> (r: Self)
        ensures
            r == self.clear_colour_spec(colour),
    {
        match colour {
            Colour::White => CastlingRights { white_queen: false, white_king: false, ..self },
            Colour::Black => CastlingRights { black_queen: false, black_king: false, ..self },
        }
    }

    /// Both flags of `colour` cleared.
    pub open spec fn clear_colour_spec(self, colour: Colour) -> CastlingRights {
        match colour {
            Colour::White => CastlingRights { white_queen: false, white_king: false, ..self },
            Colour::Black => CastlingRights { black_queen: false, black_king: false, ..self },
        }
    }
}

/// The position: redundant square-set and mailbox representations that
/// must always agree, plus the legal-state fields.
pub struct Board {
    /// The side to move.
    pub player: Colour,
    /// One square set per piece type, both colours together.
    pub bb_pieces: Vec<BitBoard>,
    /// One square set per colour, all piece types together.
    pub bb_player: Vec<BitBoard>,
    /// The dense per-square piece lookup.
    pub mailbox: Mailbox,
    /// Which castlings are still available.
    pub castling_rights: CastlingRights,
    /// The square a pawn just skipped on a double push, as a singleton
    /// set; empty when no en-passant capture is available.
    pub en_passant: BitBoard,
    /// Half-moves since the last capture or pawn move.
    pub half_moves: u32,
    /// The full-move number.
    pub full_moves: u32,
    /// The prior position, when history is chained.
    pub previous: Option<Box<Board>>,
}

/// The mailbox and the square sets agree at square `s`: an occupied
/// square is in exactly its piece's colour set and piece-type set, an
/// empty square is in none.
pub open spec fn square_consistent(
    mb: Seq<Option<Piece>>,
    bbp: Seq<BitBoard>,
    bbt: Seq<BitBoard>,
    s: u64,
) -> bool {
    match mb[s as int] {
        Some(p) => {
            &&& forall|ci: int| 0 <= ci < 2 ==> (has_sq((#[trigger] bbp[ci])@, s) <==> ci
                == p.colour_spec().idx())
            &&& forall|ti: int| 0 <= ti < 6 ==> (has_sq((#[trigger] bbt[ti])@, s) <==> ti
                == p.piece_type_spec().idx())
        },
        None => {
            &&& forall|ci: int| 0 <= ci < 2 ==> !has_sq((#[trigger] bbp[ci])@, s)
            &&& forall|ti: int| 0 <= ti < 6 ==> !has_sq((#[trigger] bbt[ti])@, s)
        },
    }
}

impl Board {
    /// The representation invariant: the arrays have their fixed sizes
    /// and every square agrees between mailbox and square sets.
    pub open spec fn wf(self) -> bool {
        &&& self.bb_pieces@.len() == 6
        &&& self.bb_player@.len() == 2
        &&& self.mailbox@.len() == 64
        &&& forall|s: u64| s < 64 ==> #[trigger] square_consistent(
            self.mailbox@,
            self.bb_player@,
            self.bb_pieces@,
            s,
        )
    }

    /// The empty position: no pieces, White to move, no castling, no
    /// en-passant, zeroed counters, no history.
    pub fn new() -> (r: Self)
        ensures
            r.wf(),
            r.player == Colour::White,
            forall|ti: int| 0 <= ti < 6 ==> (#[trigger] r.bb_pieces@[ti])@ == 0u64,
            forall|ci: int| 0 <= ci < 2 ==> (#[trigger] r.bb_player@[ci])@ == 0u64,
            forall|i: int| 0 <= i < 64 ==> r.mailbox@[i] is None,
            r.castling_rights == (CastlingRights {
                white_queen: false,
                white_king: false,
                black_queen: false,
                black_king: false,
            }),
            r.en_passant@ == 0u64,
            r.half_moves == 0,
            r.full_moves == 0,
            r.previous is None,
    {
        let mut bb_pieces: Vec<BitBoard> = Vec::new();
        let mut i: usize = 0;
        while i < 6
            invariant
                bb_pieces@.len() == i,
                i <= 6,
                forall|j: int| 0 <= j < i ==> (#[trigger] bb_pieces@[j])@ == 0u64,
            decreases 6 - i,
        {
            bb_pieces.push(BitBoard::zero());
            i = i + 1;
        }
        let mut bb_player: Vec<BitBoard> = Vec::new();
        let mut j: usize = 0;
        while j < 2
            invariant
                bb_player@.len() == j,
                j <= 2,
                forall|k: int| 0 <= k < j ==> (#[trigger] bb_player@[k])@ == 0u64,
            decreases 2 - j,
        {
            bb_player.push(BitBoard::zero());
            j = j + 1;
        }
        let r = Board {
            player: Colour::White,
            bb_pieces,
            bb_player,
            mailbox: Mailbox::new(),
            castling_rights: CastlingRights::none(),
            en_passant: BitBoard::zero(),
            half_moves: 0,
            full_moves: 0,
            previous: None,
        };
        proof {
            lemma_zero_bits();
            assert forall|s: u64| s < 64 implies #[trigger] square_consistent(
                r.mailbox@,
                r.bb_player@,
                r.bb_pieces@,
                s,
            ) by {
                assert(r.mailbox@[s as int] is None);
            }
        }
        r
    }

    /// The set of all occupied squares.
    pub fn occupancy(&self) -> (r: BitBoard)
        requires
            self.bb_player@.len() == 2,
        ensures
            r@ == (self.bb_player@[0]@ | self.bb_player@[1]@),
    {
        self.bb_player[0].or(self.bb_player[1])
    }

    /// Empty `square`: clear its bit in the two square-set arrays and
    /// its mailbox slot; a no-op on an empty square.
    pub fn remove_square(&mut self, square: Square)
        requires
            old(self).wf(),
            square.wf(),
        ensures
            final(self).wf(),
            final(self).mailbox@ == old(self).mailbox@.update(square@ as int, None::<Piece>),
            forall|ci: int| 0 <= ci < 2 ==> (#[trigger] final(self).bb_player@[ci])@ == old(
                self,
            ).bb_player@[ci]@ & !(1u64 << square@),
            forall|ti: int| 0 <= ti < 6 ==> (#[trigger] final(self).bb_pieces@[ti])@ == old(
                self,
            ).bb_pieces@[ti]@ & !(1u64 << square@),
            final(self).player == old(self).player,
            final(self).castling_rights == old(self).castling_rights,
            final(self).en_passant == old(self).en_passant,
            final(self).half_moves == old(self).half_moves,
            final(self).full_moves == old(self).full_moves,
            final(self).previous == old(self).previous,
    {
        let ghost pre = *self;
        let piece = self.mailbox.get_piece(square);
        match piece {
            Some(p) => {
                let s = BitBoard::from_unshifted(square.value());
                let ci = p.colour().index();
                let ti = p.piece_type().index();
                let npl = self.bb_player[ci].and(s.not());
                self.bb_player[ci] = npl;
                let npc = self.bb_pieces[ti].and(s.not());
                self.bb_pieces[ti] = npc;
                self.mailbox.remove_piece(square);
                proof {
                    lemma_update_bits(pre.bb_player@[p.colour_spec().idx()]@, square@);
                    lemma_update_bits(pre.bb_pieces@[p.piece_type_spec().idx()]@, square@);
                    assert(square_consistent(pre.mailbox@, pre.bb_player@, pre.bb_pieces@, square@));
                    assert forall|ci2: int| 0 <= ci2 < 2 implies (#[trigger] self.bb_player@[
                        ci2])@ == pre.bb_player@[ci2]@ & !(1u64 << square@) by {
                        if ci2 != p.colour_spec().idx() {
                            assert(!has_sq(pre.bb_player@[ci2]@, square@));
                            lemma_clear_absent(pre.bb_player@[ci2]@, square@);
                        }
                    }
                    assert forall|ti2: int| 0 <= ti2 < 6 implies (#[trigger] self.bb_pieces@[
                        ti2])@ == pre.bb_pieces@[ti2]@ & !(1u64 << square@) by {
                        if ti2 != p.piece_type_spec().idx() {
                            assert(!has_sq(pre.bb_pieces@[ti2]@, square@));
                            lemma_clear_absent(pre.bb_pieces@[ti2]@, square@);
                        }
                    }
                    assert forall|s2: u64| s2 < 64 implies #[trigger] square_consistent(
                        self.mailbox@,
                        self.bb_player@,
                        self.bb_pieces@,
                        s2,
                    ) by {
                        assert(square_consistent(pre.mailbox@, pre.bb_player@, pre.bb_pieces@, s2));
                        lemma_update_bits_all(pre, *self, square@, s2);
                    }
                }
            },
            None => {
                proof {
                    assert(square_consistent(pre.mailbox@, pre.bb_player@, pre.bb_pieces@, square@));
                    assert forall|ci2: int| 0 <= ci2 < 2 implies (#[trigger] self.bb_player@[
                        ci2])@ == pre.bb_player@[ci2]@ & !(1u64 << square@) by {
                        assert(!has_sq(pre.bb_player@[ci2]@, square@));
                        lemma_clear_absent(pre.bb_player@[ci2]@, square@);
                    }
                    assert forall|ti2: int| 0 <= ti2 < 6 implies (#[trigger] self.bb_pieces@[
                        ti2])@ == pre.bb_pieces@[ti2]@ & !(1u64 << square@) by {
                        assert(!has_sq(pre.bb_pieces@[ti2]@, square@));
                        lemma_clear_absent(pre.bb_pieces@[ti2]@, square@);
                    }
                    assert(self.mailbox@ =~= pre.mailbox@.update(square@ as int, None::<Piece>));
                    assert forall|s2: u64| s2 < 64 implies #[trigger] square_consistent(
                        self.mailbox@,
                        self.bb_player@,
                        self.bb_pieces@,
                        s2,
                    ) by {
                        assert(square_consistent(pre.mailbox@, pre.bb_player@, pre.bb_pieces@, s2));
                    }
                }
            },
        }
    }

    /// Put `piece` on `square`, first removing any piece already there,
    /// so the disjointness of the square sets is preserved.
    pub fn set_piece(&mut self, square: Square, piece: Piece)
        requires
            old(self).wf(),
            square.wf(),
        ensures
            final(self).wf(),
            final(self).mailbox@ == old(self).mailbox@.update(square@ as int, Some(piece)),
            forall|ci: int| 0 <= ci < 2 ==> (#[trigger] final(self).bb_player@[ci])@ == (if ci
                == piece.colour_spec().idx() {
                old(self).bb_player@[ci]@ | (1u64 << square@)
            } else {
                old(self).bb_player@[ci]@ & !(1u64 << square@)
            }),
            forall|ti: int| 0 <= ti < 6 ==> (#[trigger] final(self).bb_pieces@[ti])@ == (if ti
                == piece.piece_type_spec().idx() {
                old(self).bb_pieces@[ti]@ | (1u64 << square@)
            } else {
                old(self).bb_pieces@[ti]@ & !(1u64 << square@)
            }),
            final(self).player == old(self).player,
            final(self).castling_rights == old(self).castling_rights,
            final(self).en_passant == old(self).en_passant,
            final(self).half_moves == old(self).half_moves,
            final(self).full_moves == old(self).full_moves,
            final(self).previous == old(self).previous,
    {
        let ghost pre = *self;
        self.remove_square(square);
        let ghost mid = *self;
        let s = BitBoard::from_unshifted(square.value());
        let ci = piece.colour().index();
        let ti = piece.piece_type().index();
        let npl = self.bb_player[ci].or(s);
        self.bb_player[ci] = npl;
        let npc = self.bb_pieces[ti].or(s);
        self.bb_pieces[ti] = npc;
        self.mailbox.set_piece(square, piece);
        proof {
            lemma_update_bits(mid.bb_player@[piece.colour_spec().idx()]@, square@);
            lemma_update_bits(mid.bb_pieces@[piece.piece_type_spec().idx()]@, square@);
            lemma_update_bits(pre.bb_player@[piece.colour_spec().idx()]@, square@);
            lemma_update_bits(pre.bb_pieces@[piece.piece_type_spec().idx()]@, square@);
            assert forall|ci2: int| 0 <= ci2 < 2 implies (#[trigger] self.bb_player@[ci2])@ == (
            if ci2 == piece.colour_spec().idx() {
                pre.bb_player@[ci2]@ | (1u64 << square@)
            } else {
                pre.bb_player@[ci2]@ & !(1u64 << square@)
            }) by {
                if ci2 == piece.colour_spec().idx() {
                    lemma_set_after_clear(pre.bb_player@[ci2]@, square@);
                }
            }
            assert forall|ti2: int| 0 <= ti2 < 6 implies (#[trigger] self.bb_pieces@[ti2])@ == (
            if ti2 == piece.piece_type_spec().idx() {
                pre.bb_pieces@[ti2]@ | (1u64 << square@)
            } else {
                pre.bb_pieces@[ti2]@ & !(1u64 << square@)
            }) by {
                if ti2 == piece.piece_type_spec().idx() {
                    lemma_set_after_clear(pre.bb_pieces@[ti2]@, square@);
                }
            }
            assert forall|ci2: int| 0 <= ci2 < 2 implies (has_sq(
                (#[trigger] self.bb_player@[ci2])@,
                square@,
            ) <==> ci2 == piece.colour_spec().idx()) by {
                lemma_update_bits(pre.bb_player@[ci2]@, square@);
                if ci2 == piece.colour_spec().idx() {
                    assert(self.bb_player@[ci2]@ == pre.bb_player@[ci2]@ | (1u64 << square@));
                    assert(((pre.bb_player@[ci2]@ | (1u64 << square@)) >> square@) & 1u64
                        == 1u64);
                } else {
                    assert(self.bb_player@[ci2]@ == pre.bb_player@[ci2]@ & !(1u64 << square@));
                    assert(((pre.bb_player@[ci2]@ & !(1u64 << square@)) >> square@) & 1u64
                        == 0u64);
                }
            }
            assert forall|ti2: int| 0 <= ti2 < 6 implies (has_sq(
                (#[trigger] self.bb_pieces@[ti2])@,
                square@,
            ) <==> ti2 == piece.piece_type_spec().idx()) by {
                lemma_update_bits(pre.bb_pieces@[ti2]@, square@);
                if ti2 == piece.piece_type_spec().idx() {
                    assert(self.bb_pieces@[ti2]@ == pre.bb_pieces@[ti2]@ | (1u64 << square@));
                    assert(((pre.bb_pieces@[ti2]@ | (1u64 << square@)) >> square@) & 1u64
                        == 1u64);
                } else {
                    assert(self.bb_pieces@[ti2]@ == pre.bb_pieces@[ti2]@ & !(1u64 << square@));
                    assert(((pre.bb_pieces@[ti2]@ & !(1u64 << square@)) >> square@) & 1u64
                        == 0u64);
                }
            }
            assert(square_consistent(self.mailbox@, self.bb_player@, self.bb_pieces@, square@));
            assert forall|s2: u64| s2 < 64 implies #[trigger] square_consistent(
                self.mailbox@,
                self.bb_player@,
                self.bb_pieces@,
                s2,
            ) by {
                assert(square_consistent(mid.mailbox@, mid.bb_player@, mid.bb_pieces@, s2));
                lemma_update_bits_all(mid, *self, square@, s2);
            }
        }
    }

    /// Relocate the piece on `from` to `to`; any piece on `to` is
    /// captured by the overwrite.  A no-op when `from` is empty.
    pub fn move_square(&mut self, from: Square, to: Square)
        requires
            old(self).wf(),
            from.wf(),
            to.wf(),
            from@ != to@,
        ensures
            final(self).wf(),
            final(self).mailbox@ == (match old(self).mailbox@[from@ as int] {
                Some(p) => old(self).mailbox@.update(from@ as int, None::<Piece>).update(
                    to@ as int,
                    Some(p),
                ),
                None => old(self).mailbox@,
            }),
            final(self).player == old(self).player,
            final(self).castling_rights == old(self).castling_rights,
            final(self).en_passant == old(self).en_passant,
            final(self).half_moves == old(self).half_moves,
            final(self).full_moves == old(self).full_moves,
            final(self).previous == old(self).previous,
    {
        let piece = self.mailbox.get_piece(from);
        match piece {
            Some(p) => {
                self.remove_square(from);
                self.set_piece(to, p);
                proof {
                    assert(self.mailbox@ =~= old(self).mailbox@.update(
                        from@ as int,
                        None::<Piece>,
                    ).update(to@ as int, Some(p)));
                }
            },
            None => {
            },
        }
    }
}

impl Default for Board {
    /// The empty position.
    fn default() -> (r: Self)
        ensures
            r.wf(),
            r.player == Colour::White,
            forall|i: int| 0 <= i < 64 ==> r.mailbox@[i] is None,
            r.en_passant@ == 0u64,
            r.half_moves == 0,
            r.full_moves == 0,
            r.previous is None,
    {
        Board::new()
    }
}

/// Clearing a bit that is not set changes nothing.
proof fn lemma_clear_absent(x: u64, s: u64)
    by (bit_vector)
    requires
        s < 64,
        (x >> s) & 1u64 != 1u64,
    ensures
        x & !(1u64 << s) == x,
{
}

/// Setting a bit after clearing it is just setting it.
proof fn lemma_set_after_clear(x: u64, s: u64)
    by (bit_vector)
    requires
        s < 64,
    ensures
        (x & !(1u64 << s)) | (1u64 << s) == x | (1u64 << s),
{
}

/// Transfer square agreement from `pre` to `post` when `post` differs
/// from `pre` only at square `u` of some of the square sets, and agrees
/// at `u` by direct proof.
proof fn lemma_update_bits_all(pre: Board, post: Board, u: u64, s2: u64)
    requires
        u < 64,
        s2 < 64,
        pre.bb_player@.len() == 2,
        pre.bb_pieces@.len() == 6,
        post.bb_player@.len() == 2,
        post.bb_pieces@.len() == 6,
        pre.mailbox@.len() == 64,
        post.mailbox@.len() == 64,
        square_consistent(pre.mailbox@, pre.bb_player@, pre.bb_pieces@, s2),
        square_consistent(post.mailbox@, post.bb_player@, post.bb_pieces@, u),
        s2 != u ==> post.mailbox@[s2 as int] == pre.mailbox@[s2 as int],
        forall|ci: int| 0 <= ci < 2 ==> forall|t: u64| t < 64 && t != u ==> (has_sq(
            (#[trigger] post.bb_player@[ci])@,
            t,
        ) <==> has_sq(pre.bb_player@[ci]@, t)),
        forall|ti: int| 0 <= ti < 6 ==> forall|t: u64| t < 64 && t != u ==> (has_sq(
            (#[trigger] post.bb_pieces@[ti])@,
            t,
        ) <==> has_sq(pre.bb_pieces@[ti]@, t)),
    ensures
        square_consistent(post.mailbox@, post.bb_player@, post.bb_pieces@, s2),
{
    if s2 == u {
    } else {
        match post.mailbox@[s2 as int] {
            Some(p) => {
                assert forall|ci: int| 0 <= ci < 2 implies (has_sq(
                    (#[trigger] post.bb_player@[ci])@,
                    s2,
                ) <==> ci == p.colour_spec().idx()) by {
                    assert(has_sq(pre.bb_player@[ci]@, s2) <==> ci == p.colour_spec().idx());
                }
                assert forall|ti: int| 0 <= ti < 6 implies (has_sq(
                    (#[trigger] post.bb_pieces@[ti])@,
                    s2,
                ) <==> ti == p.piece_type_spec().idx()) by {
                    assert(has_sq(pre.bb_pieces@[ti]@, s2) <==> ti == p.piece_type_spec().idx());
                }
            },
            None => {
                assert forall|ci: int| 0 <= ci < 2 implies !has_sq(
                    (#[trigger] post.bb_player@[ci])@,
                    s2,
                ) by {
                    assert(!has_sq(pre.bb_player@[ci]@, s2));
                }
                assert forall|ti: int| 0 <= ti < 6 implies !has_sq(
                    (#[trigger] post.bb_pieces@[ti])@,
                    s2,
                ) by {
                    assert(!has_sq(pre.bb_pieces@[ti]@, s2));
                }
            },
        }
    }
}

} // verus!
