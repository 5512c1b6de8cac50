use chess_core::board::Board;
use chess_core::fen::ParseError;
use chess_core::piece::Colour;
use chess_core::square;

#[test]
fn fen_parse_starting() {
    let fen_str = "rnbqkbnr/pppppppp/8/8/8/8/PPPPPPPP/RNBQKBNR w KQkq - 0 1";
    let board = Board::from_fen(fen_str).unwrap();

    assert_eq!(board.bb_player[Colour::White as usize].to_hex(), "0x000000000000ffff");
    assert_eq!(board.bb_player[Colour::Black as usize].to_hex(), "0xffff000000000000");
}

#[test]
fn fen_parse_valid() {
    let fen_str = "r3k1r1/pp3ppp/2pp1nb1/q2Pp3/P3P3/2N5/1PP2PPP/R3K2R w KQq e6 0 1";
    let board = Board::from_fen(fen_str).unwrap();

    assert_eq!(board.bb_player[Colour::White as usize].to_hex(), "0x000000081104e691");
    assert_eq!(board.bb_player[Colour::Black as usize].to_hex(), "0x51e36c1100000000");
}

#[test]
fn fen_rejects_non_fen() {
    let fen_str = "cat dog meow woof";
    assert!(matches!(Board::from_fen(fen_str), Err(ParseError::Size(4))));
}

#[test]
fn fen_rejects_missing_castle_rook() {
    // Black claims king-side castling but h8 is empty.
    let fen_str = "r3k1r1/pp3ppp/2pp1nb1/q2Pp3/P3P3/2N5/1PP2PPP/R3K2R w KQkq e6 0 1";
    assert!(matches!(Board::from_fen(fen_str), Err(ParseError::Castling)));
}

#[test]
fn fen_rejects_overfull_rank() {
    // The third rank spells nine files.
    let fen_str = "r3k1r1/pp3ppp/2pp2nb1/q2Pp3/P3P3/2N5/1PP2PPP/R3K2R w KQq e6 0 1";
    assert!(matches!(Board::from_fen(fen_str), Err(ParseError::PiecePosition)));
}

#[test]
fn fen_rejects_short_rank() {
    // The first rank sums to seven files only.
    let fen_str = "rnbqkbn/pppppppp/8/8/8/8/PPPPPPPP/RNBQKBNR w KQkq - 0 1";
    assert!(matches!(Board::from_fen(fen_str), Err(ParseError::File)));
}

#[test]
fn fen_rejects_wrong_rank_count() {
    let fen_str = "rnbqkbnr/pppppppp/8/8/8/PPPPPPPP/RNBQKBNR w KQkq - 0 1";
    assert!(matches!(Board::from_fen(fen_str), Err(ParseError::Rank)));
}

#[test]
fn fen_rejects_unknown_piece_letter() {
    let fen_str = "rnbqkbnr/ppppzppp/8/8/8/8/PPPPPPPP/RNBQKBNR w KQkq - 0 1";
    match Board::from_fen(fen_str) {
        Err(ParseError::Unrecognised(t)) => assert_eq!(t, "z"),
        Err(other) => panic!("expected Unrecognised, got {:?}", other),
        Ok(_) => panic!("expected Unrecognised, got a board"),
    }
}

#[test]
fn fen_rejects_bad_side_token() {
    let fen_str = "rnbqkbnr/pppppppp/8/8/8/8/PPPPPPPP/RNBQKBNR x KQkq - 0 1";
    match Board::from_fen(fen_str) {
        Err(ParseError::Unrecognised(t)) => assert_eq!(t, "x"),
        Err(other) => panic!("expected Unrecognised, got {:?}", other),
        Ok(_) => panic!("expected Unrecognised, got a board"),
    }
}

#[test]
fn fen_rejects_short_en_passant() {
    let fen_str = "rnbqkbnr/pppppppp/8/8/8/8/PPPPPPPP/RNBQKBNR w KQkq e 0 1";
    assert!(matches!(Board::from_fen(fen_str), Err(ParseError::EnPassant)));
}

#[test]
fn fen_rejects_bad_en_passant_square() {
    let fen_str = "rnbqkbnr/pppppppp/8/8/8/8/PPPPPPPP/RNBQKBNR w KQkq z9 0 1";
    assert!(matches!(
        Board::from_fen(fen_str),
        Err(ParseError::SquareParse(square::ParseError::InvalidRankFile('z', '9')))
    ));
}

#[test]
fn fen_rejects_bad_counter() {
    let fen_str = "rnbqkbnr/pppppppp/8/8/8/8/PPPPPPPP/RNBQKBNR w KQkq - x 1";
    assert!(matches!(Board::from_fen(fen_str), Err(ParseError::NotNumber)));
}

#[test]
fn fen_accepts_en_passant_target() {
    let fen_str = "rnbqkbnr/pppppppp/8/8/4P3/8/PPPP1PPP/RNBQKBNR b KQkq e3 0 1";
    let board = Board::from_fen(fen_str).unwrap();
    // e3 is square 20.
    assert_eq!(board.en_passant.value(), 1u64 << 20);
    assert_eq!(board.player, Colour::Black);
}

#[test]
fn fen_reads_counters() {
    let fen_str = "8/8/8/8/8/8/8/K6k w - - 37 212";
    let board = Board::from_fen(fen_str).unwrap();
    assert_eq!(board.half_moves, 37);
    assert_eq!(board.full_moves, 212);
}
