use chess_core::bitboard::BitBoard;
use chess_core::board::{Board, Mailbox};
use chess_core::piece::{Colour, Piece, PieceType};
use chess_core::square::Square;

fn sq(i: u64) -> Square {
    Square::from_index(i).unwrap()
}

#[test]
fn empty_board_is_empty() {
    let b = Board::new();
    assert_eq!(b.occupancy().value(), 0);
    assert_eq!(b.player, Colour::White);
    assert_eq!(b.full_moves, 0);
}

#[test]
fn set_piece_updates_both_representations() {
    let mut b = Board::new();
    b.set_piece(sq(12), Piece::new(Colour::White, PieceType::P));
    assert_eq!(b.bb_player[0].value(), 1u64 << 12);
    assert_eq!(b.bb_pieces[0].value(), 1u64 << 12);
    let p = b.mailbox.get_piece(sq(12)).unwrap();
    assert_eq!(p.colour(), Colour::White);
    assert_eq!(p.piece_type(), PieceType::P);
}

#[test]
fn set_piece_replaces_occupant() {
    let mut b = Board::new();
    b.set_piece(sq(12), Piece::new(Colour::White, PieceType::P));
    b.set_piece(sq(12), Piece::new(Colour::Black, PieceType::Q));
    assert_eq!(b.bb_player[0].value(), 0);
    assert_eq!(b.bb_player[1].value(), 1u64 << 12);
    assert_eq!(b.bb_pieces[0].value(), 0);
    assert_eq!(b.bb_pieces[4].value(), 1u64 << 12);
}

#[test]
fn remove_square_clears() {
    let mut b = Board::new();
    b.set_piece(sq(12), Piece::new(Colour::White, PieceType::P));
    b.remove_square(sq(12));
    assert_eq!(b.occupancy().value(), 0);
    assert!(b.mailbox.get_piece(sq(12)).is_none());
    // Removing an empty square is a no-op.
    b.remove_square(sq(12));
    assert_eq!(b.occupancy().value(), 0);
}

#[test]
fn move_square_relocates_and_captures() {
    let mut b = Board::new();
    b.set_piece(sq(12), Piece::new(Colour::White, PieceType::R));
    b.set_piece(sq(20), Piece::new(Colour::Black, PieceType::N));
    b.move_square(sq(12), sq(20));
    assert!(b.mailbox.get_piece(sq(12)).is_none());
    let p = b.mailbox.get_piece(sq(20)).unwrap();
    assert_eq!(p.colour(), Colour::White);
    assert_eq!(p.piece_type(), PieceType::R);
    assert_eq!(b.bb_player[1].value(), 0);
}

#[test]
fn mailbox_roundtrip() {
    let mut m = Mailbox::new();
    assert!(m.get_piece(sq(0)).is_none());
    m.set_piece(sq(0), Piece::new(Colour::Black, PieceType::K));
    assert_eq!(m.get_piece(sq(0)).unwrap().piece_type(), PieceType::K);
    m.remove_piece(sq(0));
    assert!(m.get_piece(sq(0)).is_none());
}

#[test]
fn bitboard_textual_forms() {
    assert_eq!(BitBoard::from_shifted(0xffff).to_hex(), "0x000000000000ffff");
    assert_eq!(
        BitBoard::from_shifted(0x8000000000000001).to_hex(),
        "0x8000000000000001"
    );
    let grid = BitBoard::from_unshifted(0).to_grid();
    let expected = "  A B C D E F G H \n\
                    8 . . . . . . . .\n\
                    7 . . . . . . . .\n\
                    6 . . . . . . . .\n\
                    5 . . . . . . . .\n\
                    4 . . . . . . . .\n\
                    3 . . . . . . . .\n\
                    2 . . . . . . . .\n\
                    1 x . . . . . . .";
    assert_eq!(grid, expected);
}

#[test]
fn iter_bits_msb_first() {
    let b = BitBoard::from_shifted(1 | (1u64 << 63));
    let bits = b.iter_bits();
    assert_eq!(bits.len(), 64);
    assert!(bits[0]);
    assert!(bits[63]);
    assert!(!bits[1]);
}

#[test]
fn iter_squares_ascending() {
    let b = BitBoard::from_shifted((1u64 << 3) | (1u64 << 40) | 1);
    let squares = b.iter_squares();
    let vals: Vec<u64> = squares.iter().map(|s| s.value()).collect();
    assert_eq!(vals, vec![0, 3, 40]);
}

#[test]
fn singleton_roundtrip() {
    for s in 0..64u64 {
        let bb = BitBoard::from_unshifted(s);
        let back = Square::from_bitboard(bb).unwrap();
        assert_eq!(back.value(), s);
    }
    // More than one set bit is a typed error.
    assert!(Square::from_bitboard(BitBoard::from_shifted(3)).is_err());
}

#[test]
fn square_constructors() {
    assert!(Square::from_index(64).is_err());
    assert_eq!(Square::from_index(63).unwrap().value(), 63);
    assert_eq!(Square::from_chars('e', '4').unwrap().value(), 28);
    assert_eq!(Square::from_chars('A', '1').unwrap().value(), 0);
    assert!(Square::from_chars('i', '1').is_err());
    assert!(Square::from_chars('a', '9').is_err());
    assert_eq!(BitBoard::rank_file_to_square('4', 'e').unwrap(), 28);
    assert!(BitBoard::rank_file_to_square('9', 'a').is_err());
    assert!(Square::valid_square(12));
    assert!(!Square::valid_square(64));
}

#[test]
fn rank_and_file_boards() {
    assert_eq!(BitBoard::bitboard_of_rank(sq(12)).value(), 0xff00);
    assert_eq!(BitBoard::bitboard_of_file(sq(12)).value(), 0x1010101010101010);
}
