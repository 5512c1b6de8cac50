//! FEN decoding: build a [`Board`] from the six space-separated fields
//! of Forsyth-Edwards Notation.
//!
//! Decoding is all-or-nothing: any malformed field rejects the whole
//! string with a typed error and no partial position escapes.

use vstd::prelude::*;
use crate::bitboard::BitBoard;
use crate::board::{Board, CastlingRights};
use crate::piece::{Colour, Piece, PieceType};
use crate::square;
use crate::square::{Square, file_val, rank_val};
use crate::text::string_of;

verus! {

/// Errors from decoding a FEN string.
#[derive(Debug, PartialEq, Eq)]
pub enum ParseError {
    /// A field held an invalid square description.
    SquareParse(square::ParseError),
    /// The number of space-separated fields was not six.
    Size(usize),
    /// The number of `/`-separated ranks was not eight.
    Rank,
    /// A rank's piece letters and gap digits did not sum to eight files.
    File,
    /// A rank ran past its eighth file.
    PiecePosition,
    /// A castling flag was present with no rook of the right colour on
    /// the matching corner square.
    Castling,
    /// The en-passant field was too short.
    EnPassant,
    /// An unrecognised token.
    Unrecognised(String),
    /// A move counter was not an unsigned number in range.
    NotNumber,
}

/// Whitespace, for trimming the input's ends.
pub open spec fn is_ws(c: char) -> bool {
    c == ' ' || c == '\t' || c == '\n' || c == '\r'
}

/// The input with leading whitespace removed.
pub open spec fn trim_left(s: Seq<char>) -> Seq<char>
    decreases s.len(),
{
    if s.len() > 0 && is_ws(s[0]) {
        trim_left(s.skip(1))
    } else {
        s
    }
}

/// The input with trailing whitespace removed.
pub open spec fn trim_right(s: Seq<char>) -> Seq<char>
    decreases s.len(),
{
    if s.len() > 0 && is_ws(s.last()) {
        trim_right(s.drop_last())
    } else {
        s
    }
}

/// The input with whitespace removed at both ends.
pub open spec fn trim_spec(s: Seq<char>) -> Seq<char> {
    trim_right(trim_left(s))
}

/// The fields of `s` between occurrences of `sep`: always at least one
/// field; an empty input is one empty field.
pub open spec fn split_on(s: Seq<char>, sep: char) -> Seq<Seq<char>>
    decreases s.len(),
{
    if s.len() == 0 {
        seq![Seq::<char>::empty()]
    } else {
        let rest = split_on(s.drop_last(), sep);
        if s.last() == sep {
            rest.push(Seq::<char>::empty())
        } else {
            rest.update(rest.len() - 1, rest.last().push(s.last()))
        }
    }
}

/// A split has at least one field.
pub proof fn lemma_split_nonempty(s: Seq<char>, sep: char)
    ensures
        split_on(s, sep).len() >= 1,
    decreases s.len(),
{
    if s.len() > 0 {
        lemma_split_nonempty(s.drop_last(), sep);
    }
}

/// The piece a placement letter denotes, if any.
pub open spec fn piece_of_char(c: char) -> Option<Piece> {
    if c == 'P' {
        Some(Piece::mk(Colour::White, PieceType::P))
    } else if c == 'p' {
        Some(Piece::mk(Colour::Black, PieceType::P))
    } else if c == 'N' {
        Some(Piece::mk(Colour::White, PieceType::N))
    } else if c == 'n' {
        Some(Piece::mk(Colour::Black, PieceType::N))
    } else if c == 'B' {
        Some(Piece::mk(Colour::White, PieceType::B))
    } else if c == 'b' {
        Some(Piece::mk(Colour::Black, PieceType::B))
    } else if c == 'R' {
        Some(Piece::mk(Colour::White, PieceType::R))
    } else if c == 'r' {
        Some(Piece::mk(Colour::Black, PieceType::R))
    } else if c == 'Q' {
        Some(Piece::mk(Colour::White, PieceType::Q))
    } else if c == 'q' {
        Some(Piece::mk(Colour::Black, PieceType::Q))
    } else if c == 'K' {
        Some(Piece::mk(Colour::White, PieceType::K))
    } else if c == 'k' {
        Some(Piece::mk(Colour::Black, PieceType::K))
    } else {
        None
    }
}

/// The file gap a digit denotes, if any.
pub open spec fn gap_of_char(c: char) -> Option<u64> {
    if c == '1' {
        Some(1u64)
    } else if c == '2' {
        Some(2u64)
    } else if c == '3' {
        Some(3u64)
    } else if c == '4' {
        Some(4u64)
    } else if c == '5' {
        Some(5u64)
    } else if c == '6' {
        Some(6u64)
    } else if c == '7' {
        Some(7u64)
    } else if c == '8' {
        Some(8u64)
    } else {
        None
    }
}

/// How far a FEN decode can fail, or the decoded fields.
pub enum FenOutcome {
    /// All six fields decoded; the resulting position's parts.
    Accept {
        /// The piece on each square.
        mailbox: Seq<Option<Piece>>,
        /// The side to move.
        player: Colour,
        /// The castling availability.
        castling: CastlingRights,
        /// The en-passant target as a square set; empty for `-`.
        ep: u64,
        /// The halfmove clock.
        half: nat,
        /// The fullmove number.
        full: nat,
    },
    /// Wrong number of fields.
    RejectSize(int),
    /// Wrong number of ranks.
    RejectRank,
    /// A rank not summing to eight files.
    RejectFile,
    /// A rank running past its eighth file.
    RejectPiecePosition,
    /// An unrecognised token.
    RejectUnrecognised(Seq<char>),
    /// A castling flag without its rook.
    RejectCastling,
    /// A short en-passant field.
    RejectEnPassant,
    /// A malformed en-passant square.
    RejectSquare(square::ParseError),
    /// A malformed move counter.
    RejectNotNumber,
}

/// Scan one rank's characters from position `i` with the next file to
/// fill, updating the mailbox; yields the final mailbox and file count.
pub open spec fn rank_scan(rank: Seq<char>, i: int, file: u64, idx: int, mb: Seq<Option<Piece>>)
    -> Result<(Seq<Option<Piece>>, u64), FenOutcome>
    decreases rank.len() - i,
{
    if i < 0 || i >= rank.len() {
        Ok((mb, file))
    } else if file >= 8 {
        Err(FenOutcome::RejectPiecePosition)
    } else {
        match piece_of_char(rank[i]) {
            Some(p) => rank_scan(
                rank,
                i + 1,
                (file + 1) as u64,
                idx,
                mb.update((7 - idx) * 8 + file, Some(p)),
            ),
            None => match gap_of_char(rank[i]) {
                Some(g) => rank_scan(rank, i + 1, (file + g) as u64, idx, mb),
                None => Err(FenOutcome::RejectUnrecognised(seq![rank[i]])),
            },
        }
    }
}

/// Scan the ranks from `idx` on, each having to sum to exactly eight
/// files.
pub open spec fn ranks_scan(ranks: Seq<Seq<char>>, idx: int, mb: Seq<Option<Piece>>) -> Result<
    Seq<Option<Piece>>,
    FenOutcome,
>
    decreases 8 - idx,
{
    if idx < 0 || idx >= 8 {
        Ok(mb)
    } else {
        match rank_scan(ranks[idx], 0, 0, idx, mb) {
            Err(e) => Err(e),
            Ok((mb2, file)) => if file != 8 {
                Err(FenOutcome::RejectFile)
            } else {
                ranks_scan(ranks, idx + 1, mb2)
            },
        }
    }
}

/// The side-to-move field: exactly `w` or `b`.
pub open spec fn side_spec(f: Seq<char>) -> Option<Colour> {
    if f.len() == 1 && f[0] == 'w' {
        Some(Colour::White)
    } else if f.len() == 1 && f[0] == 'b' {
        Some(Colour::Black)
    } else {
        None
    }
}

/// Scan the castling-availability field from position `i`: flag letters
/// set their flag, a dash ends the scan, anything else is unrecognised.
pub open spec fn castling_scan(f: Seq<char>, i: int, cr: CastlingRights) -> Result<
    CastlingRights,
    Seq<char>,
>
    decreases f.len() - i,
{
    if i < 0 || i >= f.len() {
        Ok(cr)
    } else if f[i] == 'K' {
        castling_scan(f, i + 1, CastlingRights { white_king: true, ..cr })
    } else if f[i] == 'Q' {
        castling_scan(f, i + 1, CastlingRights { white_queen: true, ..cr })
    } else if f[i] == 'k' {
        castling_scan(f, i + 1, CastlingRights { black_king: true, ..cr })
    } else if f[i] == 'q' {
        castling_scan(f, i + 1, CastlingRights { black_queen: true, ..cr })
    } else if f[i] == '-' {
        Ok(cr)
    } else {
        Err(seq![f[i]])
    }
}

/// The square holds a rook of the given colour.
pub open spec fn rook_at(mb: Seq<Option<Piece>>, s: int, colour: Colour) -> bool {
    match mb[s] {
        Some(p) => p.colour_spec() == colour && p.piece_type_spec() == PieceType::R,
        None => false,
    }
}

/// Every castling flag still set has its rook of the right colour on
/// the matching corner square.
pub open spec fn castling_valid(mb: Seq<Option<Piece>>, cr: CastlingRights) -> bool {
    &&& cr.white_queen ==> rook_at(mb, 0, Colour::White)
    &&& cr.white_king ==> rook_at(mb, 7, Colour::White)
    &&& cr.black_queen ==> rook_at(mb, 56, Colour::Black)
    &&& cr.black_king ==> rook_at(mb, 63, Colour::Black)
}

/// The digit value of a character, if any.
pub open spec fn digit_val(c: char) -> Option<nat> {
    if c == '0' {
        Some(0nat)
    } else if c == '1' {
        Some(1nat)
    } else if c == '2' {
        Some(2nat)
    } else if c == '3' {
        Some(3nat)
    } else if c == '4' {
        Some(4nat)
    } else if c == '5' {
        Some(5nat)
    } else if c == '6' {
        Some(6nat)
    } else if c == '7' {
        Some(7nat)
    } else if c == '8' {
        Some(8nat)
    } else if c == '9' {
        Some(9nat)
    } else {
        None
    }
}

/// Scan decimal digits from position `i`, accumulating their value.
pub open spec fn num_scan(f: Seq<char>, i: int, acc: nat) -> Option<nat>
    decreases f.len() - i,
{
    if i < 0 || i >= f.len() {
        Some(acc)
    } else {
        match digit_val(f[i]) {
            Some(d) => num_scan(f, i + 1, acc * 10 + d),
            None => None,
        }
    }
}

/// The unsigned value of a numeric field: an optional leading plus
/// sign, then at least one digit.
pub open spec fn number_spec(f: Seq<char>) -> Option<nat> {
    if f.len() == 0 {
        None
    } else if f[0] == '+' {
        if f.len() == 1 {
            None
        } else {
            num_scan(f, 1, 0)
        }
    } else {
        num_scan(f, 0, 0)
    }
}

/// The whole decode, stage by stage in the order the fields stand:
/// field count, rank count, placement, side to move, castling flags and
/// their rook validation, en-passant target, and the two counters.
pub open spec fn fen_spec(s: Seq<char>) -> FenOutcome {
    let fields = split_on(trim_spec(s), ' ');
    if fields.len() != 6 {
        FenOutcome::RejectSize(fields.len() as int)
    } else {
        let ranks = split_on(fields[0], '/');
        if ranks.len() != 8 {
            FenOutcome::RejectRank
        } else {
            match ranks_scan(ranks, 0, Seq::new(64, |i: int| None::<Piece>)) {
                Err(e) => e,
                Ok(mb) => match side_spec(fields[1]) {
                    None => FenOutcome::RejectUnrecognised(fields[1]),
                    Some(player) => match castling_scan(
                        fields[2],
                        0,
                        CastlingRights {
                            white_queen: false,
                            white_king: false,
                            black_queen: false,
                            black_king: false,
                        },
                    ) {
                        Err(c) => FenOutcome::RejectUnrecognised(c),
                        Ok(cr) => if !castling_valid(mb, cr) {
                            FenOutcome::RejectCastling
                        } else {
                            let epf = fields[3];
                            if epf.len() == 1 && epf[0] == '-' {
                                fen_counters(s, mb, player, cr, 0)
                            } else if epf.len() < 2 {
                                FenOutcome::RejectEnPassant
                            } else if file_val(epf[0]) is None || rank_val(epf[1]) is None {
                                FenOutcome::RejectSquare(
                                    square::ParseError::InvalidRankFile(epf[0], epf[1]),
                                )
                            } else {
                                fen_counters(
                                    s,
                                    mb,
                                    player,
                                    cr,
                                    1u64 << ((file_val(epf[0])->0 + 8 * rank_val(epf[1])->0)
                                        as u64),
                                )
                            }
                        },
                    },
                },
            }
        }
    }
}

/// The tail of the decode: the two move counters.
pub open spec fn fen_counters(
    s: Seq<char>,
    mb: Seq<Option<Piece>>,
    player: Colour,
    cr: CastlingRights,
    ep: u64,
) -> FenOutcome {
    let fields = split_on(trim_spec(s), ' ');
    match number_spec(fields[4]) {
        None => FenOutcome::RejectNotNumber,
        Some(half) => if half > 0xffff_ffff {
            FenOutcome::RejectNotNumber
        } else {
            match number_spec(fields[5]) {
                None => FenOutcome::RejectNotNumber,
                Some(full) => if full > 0xffff_ffff {
                    FenOutcome::RejectNotNumber
                } else {
                    FenOutcome::Accept { mailbox: mb, player, castling: cr, ep, half, full }
                },
            }
        },
    }
}

/// The decoded board corresponds to the accepted outcome.
pub open spec fn board_matches(b: Board, o: FenOutcome) -> bool {
    match o {
        FenOutcome::Accept { mailbox, player, castling, ep, half, full } => {
            &&& b.wf()
            &&& b.mailbox@ == mailbox
            &&& b.player == player
            &&& b.castling_rights == castling
            &&& b.en_passant@ == ep
            &&& b.half_moves == half
            &&& b.full_moves == full
            &&& b.previous is None
        },
        _ => false,
    }
}

/// A rank scan never fails with an accepting outcome.
proof fn lemma_rank_scan_err(rank: Seq<char>, i: int, file: u64, idx: int, mb: Seq<Option<Piece>>)
    ensures
        rank_scan(rank, i, file, idx, mb) matches Err(e) ==> !(e matches FenOutcome::Accept {
            ..
        }),
    decreases rank.len() - i,
{
    if 0 <= i < rank.len() && file < 8 {
        match piece_of_char(rank[i]) {
            Some(p) => {
                lemma_rank_scan_err(
                    rank,
                    i + 1,
                    (file + 1) as u64,
                    idx,
                    mb.update((7 - idx) * 8 + file, Some(p)),
                );
            },
            None => {
                match gap_of_char(rank[i]) {
                    Some(g) => {
                        lemma_rank_scan_err(rank, i + 1, (file + g) as u64, idx, mb);
                    },
                    None => {},
                }
            },
        }
    }
}

/// A placement scan never fails with an accepting outcome.
proof fn lemma_ranks_scan_err(ranks: Seq<Seq<char>>, idx: int, mb: Seq<Option<Piece>>)
    ensures
        ranks_scan(ranks, idx, mb) matches Err(e) ==> !(e matches FenOutcome::Accept { .. }),
    decreases 8 - idx,
{
    if 0 <= idx < 8 {
        lemma_rank_scan_err(ranks[idx], 0, 0, idx, mb);
        match rank_scan(ranks[idx], 0, 0, idx, mb) {
            Err(_) => {},
            Ok((mb2, file)) => {
                if file == 8 {
                    lemma_ranks_scan_err(ranks, idx + 1, mb2);
                }
            },
        }
    }
}

/// A decode can only accept when every castling flag it grants has its
/// rook of the right colour on the matching corner square: a FEN whose
/// flag lacks its rook is rejected before the accepting stages.
pub proof fn lemma_accepted_castling_has_rooks(s: Seq<char>)
    ensures
        fen_spec(s) matches FenOutcome::Accept { mailbox, castling, .. } ==> castling_valid(
            mailbox,
            castling,
        ),
{
    let fields = split_on(trim_spec(s), ' ');
    if fields.len() == 6 {
        let ranks = split_on(fields[0], '/');
        if ranks.len() == 8 {
            match ranks_scan(ranks, 0, Seq::new(64, |i: int| None::<Piece>)) {
                Err(_) => {
                    lemma_ranks_scan_err(ranks, 0, Seq::new(64, |i: int| None::<Piece>));
                },
                Ok(mb) => match side_spec(fields[1]) {
                    None => {},
                    Some(player) => match castling_scan(
                        fields[2],
                        0,
                        CastlingRights {
                            white_queen: false,
                            white_king: false,
                            black_queen: false,
                            black_king: false,
                        },
                    ) {
                        Err(_) => {},
                        Ok(cr) => {
                            if castling_valid(mb, cr) {
                                assert(fen_spec(s) matches FenOutcome::Accept { .. } ==> (
                                fen_spec(s) matches FenOutcome::Accept { mailbox, castling, .. }
                                    && mailbox == mb && castling == cr));
                            } else {
                                assert(fen_spec(s) == FenOutcome::RejectCastling);
                            }
                        },
                    },
                },
            }
        }
    }
}

/// The returned error corresponds to the rejecting outcome.
pub open spec fn error_matches(e: ParseError, o: FenOutcome) -> bool {
    match o {
        FenOutcome::Accept { .. } => false,
        FenOutcome::RejectSize(n) => e matches ParseError::Size(m) && m == n,
        FenOutcome::RejectRank => e == ParseError::Rank,
        FenOutcome::RejectFile => e == ParseError::File,
        FenOutcome::RejectPiecePosition => e == ParseError::PiecePosition,
        FenOutcome::RejectUnrecognised(t) => e matches ParseError::Unrecognised(u) && u@ == t,
        FenOutcome::RejectCastling => e == ParseError::Castling,
        FenOutcome::RejectEnPassant => e == ParseError::EnPassant,
        FenOutcome::RejectSquare(se) => e == ParseError::SquareParse(se),
        FenOutcome::RejectNotNumber => e == ParseError::NotNumber,
    }
}


/// Whitespace test, mirroring [`is_ws`].
fn is_ws_exec(c: char) -> (r: bool)
    ensures
        r == is_ws(c),
{
    c == ' ' || c == '\t' || c == '\n' || c == '\r'
}

/// The characters of `s`, in order.
fn chars_of(s: &str) -> (r: Vec<char>)
    ensures
        r@ == s@,
{
    let n = s.unicode_len();
    let mut out: Vec<char> = Vec::new();
    let mut i: usize = 0;
    while i < n
        invariant
            i <= n,
            n == s@.len(),
            out@ == s@.take(i as int),
        decreases n - i,
    {
        out.push(s.get_char(i));
        proof {
            assert(s@.take(i + 1) =~= s@.take(i as int).push(s@[i as int]));
        }
        i = i + 1;
    }
    proof {
        assert(s@.take(n as int) =~= s@);
    }
    out
}

/// The characters of `s` with whitespace removed at both ends.
fn trim_chars(s: &Vec<char>) -> (r: Vec<char>)
    ensures
        r@ == trim_spec(s@),
{
    let n = s.len();
    proof {
        assert(s@.skip(0) =~= s@);
    }
    let mut st: usize = 0;
    while st < n && is_ws_exec(s[st])
        invariant
            st <= n,
            n == s@.len(),
            trim_left(s@) == trim_left(s@.skip(st as int)),
        decreases n - st,
    {
        proof {
            assert(s@.skip(st as int).len() > 0);
            assert(s@.skip(st as int)[0] == s@[st as int]);
            assert(s@.skip(st as int).skip(1) =~= s@.skip(st + 1));
        }
        st = st + 1;
    }
    proof {
        if st == n {
            assert(s@.skip(st as int) =~= Seq::<char>::empty());
        }
        assert(trim_left(s@) == s@.skip(st as int));
    }
    let mut en: usize = n;
    while en > st && is_ws_exec(s[en - 1])
        invariant
            st <= en <= n,
            n == s@.len(),
            trim_left(s@) == s@.skip(st as int),
            trim_right(s@.skip(st as int)) == trim_right(s@.subrange(st as int, en as int)),
        decreases en,
    {
        proof {
            let u = s@.subrange(st as int, en as int);
            assert(u.len() > 0);
            assert(u.last() == s@[en - 1]);
            assert(u.drop_last() =~= s@.subrange(st as int, en - 1));
        }
        en = en - 1;
    }
    proof {
        let u = s@.subrange(st as int, en as int);
        if en == st {
            assert(u =~= Seq::<char>::empty());
        }
        assert(trim_right(u) == u);
        assert(s@.skip(st as int) =~= s@.subrange(st as int, n as int));
        assert(trim_spec(s@) == u);
    }
    let mut out: Vec<char> = Vec::new();
    let mut i: usize = st;
    while i < en
        invariant
            st <= i <= en <= n,
            n == s@.len(),
            out@ == s@.subrange(st as int, i as int),
        decreases en - i,
    {
        out.push(s[i]);
        proof {
            assert(s@.subrange(st as int, i + 1) =~= s@.subrange(st as int, i as int).push(
                s@[i as int],
            ));
        }
        i = i + 1;
    }
    out
}

/// Split `s` at every occurrence of `sep`.
fn split_chars(s: &Vec<char>, sep: char) -> (r: Vec<Vec<char>>)
    ensures
        r@.len() == split_on(s@, sep).len(),
        forall|i: int| 0 <= i < r@.len() ==> (#[trigger] r@[i])@ == split_on(s@, sep)[i],
{
    let n = s.len();
    let mut out: Vec<Vec<char>> = Vec::new();
    let mut cur: Vec<char> = Vec::new();
    let mut i: usize = 0;
    while i < n
        invariant
            i <= n,
            n == s@.len(),
            out@.len() + 1 == split_on(s@.take(i as int), sep).len(),
            forall|j: int| 0 <= j < out@.len() ==> (#[trigger] out@[j])@ == split_on(
                s@.take(i as int),
                sep,
            )[j],
            cur@ == split_on(s@.take(i as int), sep).last(),
        decreases n - i,
    {
        let ghost pre = s@.take(i as int);
        proof {
            lemma_split_nonempty(pre, sep);
            assert(s@.take(i + 1).drop_last() =~= pre);
            assert(s@.take(i + 1).last() == s@[i as int]);
        }
        let c = s[i];
        if c == sep {
            out.push(cur);
            cur = Vec::new();
        } else {
            cur.push(c);
        }
        i = i + 1;
    }
    proof {
        assert(s@.take(n as int) =~= s@);
    }
    out.push(cur);
    let ghost sp = split_on(s@, sep);
    proof {
        lemma_split_nonempty(s@, sep);
        assert(out@.len() == sp.len());
        assert forall|j: int| 0 <= j < out@.len() implies (#[trigger] out@[j])@ == sp[j] by {
            if j < out@.len() - 1 {
            } else {
                assert(out@[j]@ == sp.last());
            }
        }
    }
    out
}

/// A scan that has already accumulated `acc` can only yield `acc` or
/// more.
proof fn lemma_num_scan_ge(f: Seq<char>, i: int, acc: nat)
    ensures
        num_scan(f, i, acc) matches Some(n) ==> n >= acc,
    decreases f.len() - i,
{
    if 0 <= i < f.len() {
        match digit_val(f[i]) {
            Some(d) => {
                lemma_num_scan_ge(f, i + 1, acc * 10 + d);
            },
            None => {
            },
        }
    }
}

/// Parse an unsigned 32-bit number: an optional leading plus sign, then
/// at least one digit; `None` on malformed or out-of-range input.
fn parse_u32(f: &Vec<char>) -> (r: Option<u32>)
    ensures
        match number_spec(f@) {
            Some(n) => if n <= 0xffff_ffff {
                r == Some(n as u32)
            } else {
                r is None
            },
            None => r is None,
        },
{
    let n = f.len();
    if n == 0 {
        proof {
            assert(number_spec(f@) is None);
        }
        return None;
    }
    let start: usize = if f[0] == '+' {
        1
    } else {
        0
    };
    if start == 1 && n == 1 {
        proof {
            assert(number_spec(f@) is None);
        }
        return None;
    }
    let mut acc: u64 = 0;
    let mut i: usize = start;
    while i < n
        invariant
            start <= i <= n,
            n == f@.len(),
            start <= 1,
            (start == 1) == (f@[0] == '+'),
            start == 1 ==> n > 1,
            acc <= 0xffff_ffff,
            num_scan(f@, start as int, 0) == num_scan(f@, i as int, acc as nat),
        decreases n - i,
    {
        proof {
            assert(f@.len() > 0);
        }
        let c = f[i];
        let d: u64 = if c == '0' {
            0
        } else if c == '1' {
            1
        } else if c == '2' {
            2
        } else if c == '3' {
            3
        } else if c == '4' {
            4
        } else if c == '5' {
            5
        } else if c == '6' {
            6
        } else if c == '7' {
            7
        } else if c == '8' {
            8
        } else if c == '9' {
            9
        } else {
            proof {
                assert(digit_val(f@[i as int]) is None);
                assert(num_scan(f@, i as int, acc as nat) is None);
                assert(number_spec(f@) is None);
            }
            return None;
        };
        let next = acc * 10 + d;
        proof {
            assert(num_scan(f@, i as int, acc as nat) == num_scan(f@, i + 1, next as nat));
        }
        if next > 0xffff_ffff {
            proof {
                lemma_num_scan_ge(f@, i + 1, next as nat);
                assert(match number_spec(f@) {
                    Some(nn) => nn > 0xffff_ffff,
                    None => true,
                });
            }
            return None;
        }
        acc = next;
        i = i + 1;
    }
    proof {
        assert(num_scan(f@, i as int, acc as nat) == Some(acc as nat));
        assert(number_spec(f@) == Some(acc as nat));
    }
    Some(acc as u32)
}

impl Board {
    /// Decode a FEN string into a position.
    ///
    /// The six space-separated fields are checked in order; the first
    /// malformed field rejects the whole string with its typed error,
    /// and a castling flag whose rook is missing from the matching
    /// corner square is rejected as [`ParseError::Castling`].
    pub fn from_fen(s: &str) -> (r: Result<Board, ParseError>)
        ensures
            match r {
                Ok(b) => board_matches(b, fen_spec(s@)),
                Err(e) => error_matches(e, fen_spec(s@)),
            },
    {
        let chars = chars_of(s);
        let trimmed = trim_chars(&chars);
        let fields = split_chars(&trimmed, ' ');
        let ghost fieldsS = split_on(trim_spec(s@), ' ');
        proof {
            assert(trimmed@ == trim_spec(s@));
            assert(fields@.len() == fieldsS.len());
        }
        if fields.len() != 6 {
            proof {
                assert(fen_spec(s@) == FenOutcome::RejectSize(fieldsS.len() as int));
            }
            return Err(ParseError::Size(fields.len()));
        }
        let ranks = split_chars(&fields[0], '/');
        let ghost ranksS = split_on(fieldsS[0], '/');
        proof {
            assert(fields@[0]@ == fieldsS[0]);
            assert(ranks@.len() == ranksS.len());
        }
        if ranks.len() != 8 {
            proof {
                assert(fen_spec(s@) == FenOutcome::RejectRank);
            }
            return Err(ParseError::Rank);
        }
        let mut board = Board::new();
        let ghost mb0 = Seq::new(64, |i: int| None::<Piece>);
        proof {
            assert(board.mailbox@ =~= mb0);
        }
        let mut idx: usize = 0;
        while idx < 8
            invariant
                idx <= 8,
                board.wf(),
                board.player == Colour::White,
                board.castling_rights == (CastlingRights {
                    white_queen: false,
                    white_king: false,
                    black_queen: false,
                    black_king: false,
                }),
                board.en_passant@ == 0u64,
                board.half_moves == 0,
                board.full_moves == 0,
                board.previous is None,
                fieldsS == split_on(trim_spec(s@), ' '),
                fieldsS.len() == 6,
                ranksS == split_on(fieldsS[0], '/'),
                ranksS.len() == 8,
                mb0 == Seq::new(64, |i: int| None::<Piece>),
                ranks@.len() == 8,
                forall|j: int| 0 <= j < 8 ==> (#[trigger] ranks@[j])@ == ranksS[j],
                ranks_scan(ranksS, 0, mb0) == ranks_scan(ranksS, idx as int, board.mailbox@),
            decreases 8 - idx,
        {
            let rank = &ranks[idx];
            let m = rank.len();
            let mut file: u64 = 0;
            let mut i: usize = 0;
            while i < m
                invariant
                    idx < 8,
                    i <= m,
                    m == rank@.len(),
                    rank@ == ranksS[idx as int],
                    file <= 16,
                    board.wf(),
                    board.player == Colour::White,
                    board.castling_rights == (CastlingRights {
                        white_queen: false,
                        white_king: false,
                        black_queen: false,
                        black_king: false,
                    }),
                    board.en_passant@ == 0u64,
                    board.half_moves == 0,
                    board.full_moves == 0,
                    board.previous is None,
                    fieldsS == split_on(trim_spec(s@), ' '),
                    fieldsS.len() == 6,
                    ranksS == split_on(fieldsS[0], '/'),
                    ranksS.len() == 8,
                    mb0 == Seq::new(64, |i: int| None::<Piece>),
                    ranks@.len() == 8,
                    forall|j: int| 0 <= j < 8 ==> (#[trigger] ranks@[j])@ == ranksS[j],
                    ranks_scan(ranksS, 0, mb0) == (match rank_scan(
                        ranksS[idx as int],
                        i as int,
                        file,
                        idx as int,
                        board.mailbox@,
                    ) {
                        Err(e) => Err(e),
                        Ok((mb2, f2)) => if f2 != 8 {
                            Err(FenOutcome::RejectFile)
                        } else {
                            ranks_scan(ranksS, idx + 1, mb2)
                        },
                    }),
                decreases m - i,
            {
                if file >= 8 {
                    proof {
                        assert(rank_scan(ranksS[idx as int], i as int, file, idx as int,
                            board.mailbox@) == Err::<(Seq<Option<Piece>>, u64), FenOutcome>(
                            FenOutcome::RejectPiecePosition,
                        ));
                        assert(fen_spec(s@) == FenOutcome::RejectPiecePosition);
                    }
                    return Err(ParseError::PiecePosition);
                }
                let c = rank[i];
                let pc: Option<Piece> = if c == 'P' {
                    Some(Piece::new(Colour::White, PieceType::P))
                } else if c == 'p' {
                    Some(Piece::new(Colour::Black, PieceType::P))
                } else if c == 'N' {
                    Some(Piece::new(Colour::White, PieceType::N))
                } else if c == 'n' {
                    Some(Piece::new(Colour::Black, PieceType::N))
                } else if c == 'B' {
                    Some(Piece::new(Colour::White, PieceType::B))
                } else if c == 'b' {
                    Some(Piece::new(Colour::Black, PieceType::B))
                } else if c == 'R' {
                    Some(Piece::new(Colour::White, PieceType::R))
                } else if c == 'r' {
                    Some(Piece::new(Colour::Black, PieceType::R))
                } else if c == 'Q' {
                    Some(Piece::new(Colour::White, PieceType::Q))
                } else if c == 'q' {
                    Some(Piece::new(Colour::Black, PieceType::Q))
                } else if c == 'K' {
                    Some(Piece::new(Colour::White, PieceType::K))
                } else if c == 'k' {
                    Some(Piece::new(Colour::Black, PieceType::K))
                } else {
                    None
                };
                proof {
                    assert(pc == piece_of_char(c));
                }
                match pc {
                    Some(p) => {
                        let ghost mbpre = board.mailbox@;
                        let sqv = (7 - idx as u64) * 8 + file;
                        let sq = match Square::from_index(sqv) {
                            Ok(q) => q,
                            Err(_) => vstd::pervasive::unreached(),
                        };
                        board.set_piece(sq, p);
                        proof {
                            assert(board.mailbox@ == mbpre.update(
                                (7 - idx as int) * 8 + file,
                                Some(p),
                            ));
                            assert(rank_scan(ranksS[idx as int], i as int, file, idx as int,
                                mbpre) == rank_scan(
                                ranksS[idx as int],
                                i + 1,
                                (file + 1) as u64,
                                idx as int,
                                board.mailbox@,
                            ));
                        }
                        file = file + 1;
                    },
                    None => {
                        let g: u64 = if c == '1' {
                            1
                        } else if c == '2' {
                            2
                        } else if c == '3' {
                            3
                        } else if c == '4' {
                            4
                        } else if c == '5' {
                            5
                        } else if c == '6' {
                            6
                        } else if c == '7' {
                            7
                        } else if c == '8' {
                            8
                        } else {
                            proof {
                                assert(gap_of_char(c) is None);
                                assert(rank_scan(ranksS[idx as int], i as int, file, idx as int,
                                    board.mailbox@) == Err::<(Seq<Option<Piece>>, u64),
                                    FenOutcome>(FenOutcome::RejectUnrecognised(seq![c])));
                                assert(fen_spec(s@) == FenOutcome::RejectUnrecognised(seq![c]));
                            }
                            return Err(ParseError::Unrecognised(
                                crate::text::string_of_char(c),
                            ));
                        };
                        proof {
                            assert(gap_of_char(c) == Some(g));
                            assert(rank_scan(ranksS[idx as int], i as int, file, idx as int,
                                board.mailbox@) == rank_scan(
                                ranksS[idx as int],
                                i + 1,
                                (file + g) as u64,
                                idx as int,
                                board.mailbox@,
                            ));
                        }
                        file = file + g;
                    },
                }
                i = i + 1;
            }
            if file != 8 {
                proof {
                    assert(rank_scan(ranksS[idx as int], i as int, file, idx as int,
                        board.mailbox@) == Ok::<(Seq<Option<Piece>>, u64), FenOutcome>(
                        (board.mailbox@, file),
                    ));
                    assert(fen_spec(s@) == FenOutcome::RejectFile);
                }
                return Err(ParseError::File);
            }
            proof {
                assert(rank_scan(ranksS[idx as int], i as int, file, idx as int, board.mailbox@)
                    == Ok::<(Seq<Option<Piece>>, u64), FenOutcome>((board.mailbox@, file)));
            }
            idx = idx + 1;
        }
        let ghost mb = board.mailbox@;
        proof {
            assert(ranks_scan(ranksS, idx as int, mb) == Ok::<Seq<Option<Piece>>, FenOutcome>(
                mb,
            ));
            assert(ranks_scan(ranksS, 0, mb0) == Ok::<Seq<Option<Piece>>, FenOutcome>(mb));
        }
        let side = &fields[1];
        proof {
            assert(fields@[1]@ == fieldsS[1]);
        }
        let player: Colour;
        if side.len() == 1 && side[0] == 'w' {
            player = Colour::White;
        } else if side.len() == 1 && side[0] == 'b' {
            player = Colour::Black;
        } else {
            proof {
                assert(side_spec(fieldsS[1]) is None);
                assert(fen_spec(s@) == FenOutcome::RejectUnrecognised(fieldsS[1]));
            }
            return Err(ParseError::Unrecognised(string_of(side)));
        }
        board.player = player;
        proof {
            assert(side_spec(fieldsS[1]) == Some(player));
        }
        let cfield = &fields[2];
        proof {
            assert(fields@[2]@ == fieldsS[2]);
        }
        let ghost cr0 = (CastlingRights {
            white_queen: false,
            white_king: false,
            black_queen: false,
            black_king: false,
        });
        let cn = cfield.len();
        let mut ci: usize = 0;
        let mut done = false;
        while ci < cn && !done
            invariant
                ci <= cn,
                cn == cfield@.len(),
                board.wf(),
                board.mailbox@ == mb,
                board.player == player,
                board.en_passant@ == 0u64,
                board.half_moves == 0,
                board.full_moves == 0,
                board.previous is None,
                cr0 == (CastlingRights {
                    white_queen: false,
                    white_king: false,
                    black_queen: false,
                    black_king: false,
                }),
                fieldsS == split_on(trim_spec(s@), ' '),
                fieldsS.len() == 6,
                ranksS == split_on(fieldsS[0], '/'),
                ranksS.len() == 8,
                mb0 == Seq::new(64, |i: int| None::<Piece>),
                ranks_scan(ranksS, 0, mb0) == Ok::<Seq<Option<Piece>>, FenOutcome>(mb),
                side_spec(fieldsS[1]) == Some(player),
                cfield@ == fieldsS[2],
                !done ==> castling_scan(cfield@, 0, cr0) == castling_scan(
                    cfield@,
                    ci as int,
                    board.castling_rights,
                ),
                done ==> castling_scan(cfield@, 0, cr0) == Ok::<CastlingRights, Seq<char>>(
                    board.castling_rights,
                ),
            decreases cn - ci,
        {
            let c = cfield[ci];
            if c == 'K' {
                board.castling_rights.white_king = true;
            } else if c == 'Q' {
                board.castling_rights.white_queen = true;
            } else if c == 'k' {
                board.castling_rights.black_king = true;
            } else if c == 'q' {
                board.castling_rights.black_queen = true;
            } else if c == '-' {
                done = true;
            } else {
                proof {
                    assert(castling_scan(cfield@, ci as int, board.castling_rights) == Err::<
                        CastlingRights,
                        Seq<char>,
                    >(seq![c]));
                    assert(fen_spec(s@) == FenOutcome::RejectUnrecognised(seq![c]));
                }
                return Err(ParseError::Unrecognised(crate::text::string_of_char(c)));
            }
            ci = ci + 1;
        }
        let ghost cr = board.castling_rights;
        proof {
            assert(castling_scan(cfield@, 0, cr0) == Ok::<CastlingRights, Seq<char>>(cr));
        }
        if board.castling_rights.white_queen {
            if !rook_check(&board, 0, Colour::White) {
                proof {
                    assert(!castling_valid(mb, cr));
                    assert(fen_spec(s@) == FenOutcome::RejectCastling);
                }
                return Err(ParseError::Castling);
            }
        }
        if board.castling_rights.white_king {
            if !rook_check(&board, 7, Colour::White) {
                proof {
                    assert(!castling_valid(mb, cr));
                    assert(fen_spec(s@) == FenOutcome::RejectCastling);
                }
                return Err(ParseError::Castling);
            }
        }
        if board.castling_rights.black_queen {
            if !rook_check(&board, 56, Colour::Black) {
                proof {
                    assert(!castling_valid(mb, cr));
                    assert(fen_spec(s@) == FenOutcome::RejectCastling);
                }
                return Err(ParseError::Castling);
            }
        }
        if board.castling_rights.black_king {
            if !rook_check(&board, 63, Colour::Black) {
                proof {
                    assert(!castling_valid(mb, cr));
                    assert(fen_spec(s@) == FenOutcome::RejectCastling);
                }
                return Err(ParseError::Castling);
            }
        }
        proof {
            assert(castling_valid(mb, cr));
        }
        let epf = &fields[3];
        proof {
            assert(fields@[3]@ == fieldsS[3]);
        }
        if epf.len() == 1 && epf[0] == '-' {
            proof {
                assert(fen_spec(s@) == fen_counters(s@, mb, player, cr, 0));
            }
        } else {
            if epf.len() < 2 {
                proof {
                    assert(fen_spec(s@) == FenOutcome::RejectEnPassant);
                }
                return Err(ParseError::EnPassant);
            }
            let fc = epf[0];
            let rc = epf[1];
            match Square::from_chars(fc, rc) {
                Ok(sq) => {
                    board.en_passant = BitBoard::from_unshifted(sq.value());
                    proof {
                        assert(fen_spec(s@) == fen_counters(s@, mb, player, cr,
                            board.en_passant@));
                    }
                },
                Err(e) => {
                    proof {
                        assert(e == square::ParseError::InvalidRankFile(fc, rc));
                        assert(fen_spec(s@) == FenOutcome::RejectSquare(e));
                    }
                    return Err(ParseError::SquareParse(e));
                },
            }
        }
        proof {
            assert(fen_spec(s@) == fen_counters(s@, mb, player, cr, board.en_passant@));
            assert(fields@[4]@ == fieldsS[4]);
            assert(fields@[5]@ == fieldsS[5]);
        }
        match parse_u32(&fields[4]) {
            Some(h) => {
                board.half_moves = h;
            },
            None => {
                proof {
                    assert(fen_spec(s@) == FenOutcome::RejectNotNumber);
                }
                return Err(ParseError::NotNumber);
            },
        }
        match parse_u32(&fields[5]) {
            Some(fm) => {
                board.full_moves = fm;
            },
            None => {
                proof {
                    assert(fen_spec(s@) == FenOutcome::RejectNotNumber);
                }
                return Err(ParseError::NotNumber);
            },
        }
        proof {
            assert(fen_spec(s@) == (FenOutcome::Accept {
                mailbox: mb,
                player,
                castling: cr,
                ep: board.en_passant@,
                half: board.half_moves as nat,
                full: board.full_moves as nat,
            }));
            assert(board_matches(board, fen_spec(s@)));
        }
        Ok(board)
    }
}

/// A rook of `colour` stands on square `s` of the board.
fn rook_check(board: &Board, s: u64, colour: Colour) -> (r: bool)
    requires
        board.wf(),
        s < 64,
    ensures
        r == rook_at(board.mailbox@, s as int, colour),
{
    let sq = match Square::from_index(s) {
        Ok(q) => q,
        Err(_) => vstd::pervasive::unreached(),
    };
    match board.mailbox.get_piece(sq) {
        Some(p) => p.piece_type() == PieceType::R && p.colour() == colour,
        None => false,
    }
}

} // verus!
