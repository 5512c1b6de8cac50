use chess_core::apply::MoveError;
use chess_core::bitboard::BitBoard;
use chess_core::movegen::piece_is_pinned;
use chess_core::board::Board;
use chess_core::moves::Move;
use chess_core::piece::{Colour, PieceType};
use chess_core::square::Square;
use chess_core::state::State;
use chess_core::tables::AttackTables;

fn sq(i: u64) -> Square {
    Square::from_index(i).unwrap()
}

#[test]
fn pinned_piece_is_detected() {
    let t = AttackTables::new().unwrap();
    let board = Board::from_fen("3k4/3b4/8/8/8/8/3Q4/3K4 b - - 0 1").unwrap();
    let pinned = board.pinned_to(&t, sq(59), Colour::Black);
    assert_eq!(pinned.value(), 0x0008000000000000);
}

#[test]
fn pinners_are_the_pinning_sliders() {
    let t = AttackTables::new().unwrap();
    let board = Board::from_fen("3k4/3b4/8/8/8/8/3Q4/3K4 b - - 0 1").unwrap();
    let pinners = board.pinners_to(&t, sq(59), Colour::Black);
    // The queen on d2 (square 11).
    assert_eq!(pinners.value(), 1u64 << 11);
}

#[test]
fn attackers_of_square() {
    let t = AttackTables::new().unwrap();
    let board = Board::from_fen("3k4/8/8/8/8/8/3Q4/3K4 b - - 0 1").unwrap();
    let checkers = board.attackers_of_king(&t, sq(59), Colour::Black);
    // The queen on d2 checks the king along the open d-file.
    assert_eq!(checkers.value(), 1u64 << 11);
    let occ = board.occupancy();
    let all = board.attackers_of(&t, sq(59), occ);
    assert_eq!(all.value(), 1u64 << 11);
}

#[test]
fn state_apply_board_fills_safety_sets() {
    let t = AttackTables::new().unwrap();
    let board = Board::from_fen("3k4/3b4/8/8/8/8/3Q4/3K4 b - - 0 1").unwrap();
    let mut st = State::default();
    st.apply_board(&board, &t);
    assert_eq!(st.bb_checkers.value(), 0);
    assert_eq!(st.bb_pinned.value(), 0x0008000000000000);
    assert_eq!(st.bb_pinners.value(), 1u64 << 11);
    let next = st.next();
    assert_eq!(next.bb_pinned.value(), 0);
    assert!(next.previous_state.is_none());
}

#[test]
fn starting_position_moves() {
    let t = AttackTables::new().unwrap();
    let board = Board::from_fen("rnbqkbnr/pppppppp/8/8/8/8/PPPPPPPP/RNBQKBNR w KQkq - 0 1")
        .unwrap();
    let moves = board.generate_moves(&t);
    // Eight single pawn pushes and four knight jumps.
    assert_eq!(moves.len(), 12);
    for m in &moves {
        assert!(m.promotion().is_none());
    }
}

#[test]
fn promotion_moves_enumerate_all_choices() {
    let t = AttackTables::new().unwrap();
    // A white pawn on b7, kings tucked away.
    let board = Board::from_fen("8/1P6/8/8/8/8/7K/7k w - - 0 1").unwrap();
    let moves = board.generate_moves(&t);
    let promos: Vec<&Move> = moves
        .iter()
        .filter(|m| m.source().value() == 49)
        .collect();
    assert_eq!(promos.len(), 4);
    assert_eq!(promos[0].promotion(), Some(PieceType::B));
    assert_eq!(promos[1].promotion(), Some(PieceType::N));
    assert_eq!(promos[2].promotion(), Some(PieceType::Q));
    assert_eq!(promos[3].promotion(), Some(PieceType::R));
    for m in &promos {
        assert_eq!(m.destination().value(), 57);
    }
}

#[test]
fn pinned_bishop_moves_stay_on_the_pin_line() {
    let t = AttackTables::new().unwrap();
    let board = Board::from_fen("3k4/3b4/8/8/8/8/3Q4/3K4 b - - 0 1").unwrap();
    let moves = board.generate_moves(&t);
    for m in &moves {
        if m.source().value() == 51 {
            // The pinned bishop may only move along the d-file, where a
            // bishop has no destinations at all.
            panic!("pinned bishop must have no moves, got one to {}", m.destination().value());
        }
    }
}

#[test]
fn move_accessors() {
    let m = Move::new(sq(12), sq(28), Some(PieceType::Q));
    assert_eq!(m.source().value(), 12);
    assert_eq!(m.destination().value(), 28);
    assert_eq!(m.promotion(), Some(PieceType::Q));
}

#[test]
fn apply_simple_pawn_push() {
    let mut board =
        Board::from_fen("rnbqkbnr/pppppppp/8/8/8/8/PPPPPPPP/RNBQKBNR w KQkq - 0 1").unwrap();
    board.apply_move(&Move::new(sq(12), sq(20), None)).unwrap();
    assert!(board.mailbox.get_piece(sq(12)).is_none());
    assert_eq!(board.mailbox.get_piece(sq(20)).unwrap().piece_type(), PieceType::P);
    assert_eq!(board.player, Colour::Black);
    assert_eq!(board.full_moves, 2);
    assert_eq!(board.en_passant.value(), 0);
}

#[test]
fn apply_double_push_sets_en_passant() {
    let mut board =
        Board::from_fen("rnbqkbnr/pppppppp/8/8/8/8/PPPPPPPP/RNBQKBNR w KQkq - 0 1").unwrap();
    board.apply_move(&Move::new(sq(12), sq(28), None)).unwrap();
    // The skipped square e3 (20) becomes the en-passant target.
    assert_eq!(board.en_passant.value(), 1u64 << 20);
}

#[test]
fn apply_en_passant_capture_removes_passed_pawn() {
    // White pawn on e5, black pawn just double-pushed d7-d5.
    let mut board = Board::from_fen("4k3/8/8/3pP3/8/8/8/4K3 w - d6 0 3").unwrap();
    board.apply_move(&Move::new(sq(36), sq(43), None)).unwrap();
    // The capturing pawn stands on d6; the black pawn on d5 is gone.
    assert_eq!(board.mailbox.get_piece(sq(43)).unwrap().piece_type(), PieceType::P);
    assert!(board.mailbox.get_piece(sq(35)).is_none());
    assert_eq!(board.bb_player[1].value(), 1u64 << 60);
}

#[test]
fn apply_castling_relocates_rook() {
    let mut board = Board::from_fen("4k3/8/8/8/8/8/8/4K2R w K - 0 1").unwrap();
    board.apply_move(&Move::new(sq(4), sq(6), None)).unwrap();
    assert_eq!(board.mailbox.get_piece(sq(6)).unwrap().piece_type(), PieceType::K);
    assert_eq!(board.mailbox.get_piece(sq(5)).unwrap().piece_type(), PieceType::R);
    assert!(board.mailbox.get_piece(sq(7)).is_none());
    assert!(!board.castling_rights.white_king);
    assert!(!board.castling_rights.white_queen);
}

#[test]
fn apply_bad_castling_destination_is_an_error() {
    // A two-square horizontal king move to a non-canonical square.
    let mut board = Board::from_fen("4k3/8/8/8/8/8/8/1K6 w - - 0 1").unwrap();
    let before_occ = board.occupancy().value();
    let r = board.apply_move(&Move::new(sq(1), sq(3), None));
    assert_eq!(r, Err(MoveError::InvalidCastlingDestination));
    assert_eq!(board.occupancy().value(), before_occ);
    assert_eq!(board.player, Colour::White);
}

#[test]
fn apply_promotion_replaces_pawn() {
    let mut board = Board::from_fen("8/1P6/8/8/8/8/7K/7k w - - 0 1").unwrap();
    board.apply_move(&Move::new(sq(49), sq(57), Some(PieceType::Q))).unwrap();
    let p = board.mailbox.get_piece(sq(57)).unwrap();
    assert_eq!(p.piece_type(), PieceType::Q);
    assert_eq!(p.colour(), Colour::White);
    assert!(board.mailbox.get_piece(sq(49)).is_none());
}

#[test]
fn apply_rook_move_forfeits_castling() {
    let mut board = Board::from_fen("4k3/8/8/8/8/8/8/R3K2R w KQ - 0 1").unwrap();
    board.apply_move(&Move::new(sq(0), sq(8), None)).unwrap();
    assert!(!board.castling_rights.white_king);
    assert!(!board.castling_rights.white_queen);
}

#[test]
fn apply_black_queenside_castling() {
    let mut board = Board::from_fen("r3k3/8/8/8/8/8/8/4K3 b q - 0 1").unwrap();
    board.apply_move(&Move::new(sq(60), sq(58), None)).unwrap();
    assert_eq!(board.mailbox.get_piece(sq(58)).unwrap().piece_type(), PieceType::K);
    assert_eq!(board.mailbox.get_piece(sq(59)).unwrap().piece_type(), PieceType::R);
    assert!(board.mailbox.get_piece(sq(56)).is_none());
    assert!(!board.castling_rights.black_queen);
    assert_eq!(board.player, Colour::White);
}

#[test]
fn colour_other_flips() {
    assert_eq!(Colour::White.other(), Colour::Black);
    assert_eq!(Colour::Black.other(), Colour::White);
}

#[test]
fn piece_is_pinned_checks_membership() {
    assert!(piece_is_pinned(sq(3), BitBoard::from_shifted(0x8)));
    assert!(!piece_is_pinned(sq(4), BitBoard::from_shifted(0x8)));
}
