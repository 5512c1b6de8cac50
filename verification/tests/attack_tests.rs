use chess_core::bitboard::{BitBoard, Direction};
use chess_core::piece::Colour;
use chess_core::piece::PieceType;
use chess_core::square::Square;
use chess_core::tables::AttackTables;

fn sq(i: u64) -> Square {
    Square::from_index(i).unwrap()
}

#[test]
fn rook() {
    let t = AttackTables::new().unwrap();
    let occupancy = BitBoard::new(8000000000800);
    let attacks = PieceType::rook_attack(&t, sq(35), occupancy);
    println!("Rook: {}", BitBoard::from_unshifted(35).to_hex());
    println!("Occupancy: {}", occupancy.to_hex());
    println!("Attacks: {}", attacks.to_hex());
}

#[test]
fn bishop() {
    let t = AttackTables::new().unwrap();
    let occupancy = BitBoard::new(0x114182002260020);
    let attacks = PieceType::bishop_attack(&t, sq(35), occupancy);
    println!("Bishop: {}", BitBoard::from_unshifted(35).to_hex());
    println!("Occupancy: {}", occupancy.to_hex());
    println!("Attacks: {}", attacks.to_hex());
}

#[test]
fn sliding_attacks() {
    let occupancy = BitBoard::new(0x1104000008);
    let directions = [Direction::North, Direction::East, Direction::South, Direction::West];
    let sliding = PieceType::sliding_attack(directions, sq(0), occupancy);
    println!("Rook: {}", BitBoard::from_unshifted(0).to_hex());
    println!("Occupancy: {}", occupancy.to_hex());
    println!("Sliding: {}", sliding.to_hex());
}

#[test]
fn magic_rook_matches_ray_walk_exhaustively() {
    let t = AttackTables::new().unwrap();
    let dirs = [Direction::North, Direction::East, Direction::South, Direction::West];
    for s in 0..64u64 {
        let square = sq(s);
        let mask = t.rook.magic[s as usize].mask().value();
        let mut b: u64 = 0;
        loop {
            let looked_up = PieceType::rook_attack(&t, square, BitBoard::from_shifted(b));
            let walked = PieceType::sliding_attack(dirs, square, BitBoard::from_shifted(b));
            assert_eq!(looked_up, walked, "square {} occupancy {:#x}", s, b);
            b = b.wrapping_sub(mask) & mask;
            if b == 0 {
                break;
            }
        }
    }
}

#[test]
fn magic_bishop_matches_ray_walk_exhaustively() {
    let t = AttackTables::new().unwrap();
    let dirs = [
        Direction::NorthEast,
        Direction::SouthEast,
        Direction::SouthWest,
        Direction::NorthWest,
    ];
    for s in 0..64u64 {
        let square = sq(s);
        let mask = t.bishop.magic[s as usize].mask().value();
        let mut b: u64 = 0;
        loop {
            let looked_up = PieceType::bishop_attack(&t, square, BitBoard::from_shifted(b));
            let walked = PieceType::sliding_attack(dirs, square, BitBoard::from_shifted(b));
            assert_eq!(looked_up, walked, "square {} occupancy {:#x}", s, b);
            b = b.wrapping_sub(mask) & mask;
            if b == 0 {
                break;
            }
        }
    }
}

#[test]
fn knight_and_king_patterns() {
    let t = AttackTables::new().unwrap();
    // Knight on b1 reaches a3, c3 and d2.
    let n = PieceType::knight_attack(&t, sq(1));
    assert_eq!(n.value(), (1u64 << 16) | (1u64 << 18) | (1u64 << 11));
    // King on a1 reaches a2, b1 and b2.
    let k = PieceType::king_attack(&t, sq(0));
    assert_eq!(k.value(), (1u64 << 8) | (1u64 << 1) | (1u64 << 9));
    // Queen is rook and bishop combined.
    let occ = BitBoard::from_shifted(0);
    let q = PieceType::queen_attack(&t, sq(35), occ);
    let r = PieceType::rook_attack(&t, sq(35), occ);
    let b = PieceType::bishop_attack(&t, sq(35), occ);
    assert_eq!(q, r.or(b));
}

#[test]
fn pawn_attacks_by_colour() {
    // A white pawn on e4 (28) attacks d5 (35) and f5 (37).
    let e4 = BitBoard::from_unshifted(28);
    assert_eq!(
        PieceType::pawn_attack(e4, Colour::White).value(),
        (1u64 << 35) | (1u64 << 37)
    );
    // A black pawn on e4 attacks d3 (19) and f3 (21).
    assert_eq!(
        PieceType::pawn_attack(e4, Colour::Black).value(),
        (1u64 << 19) | (1u64 << 21)
    );
    // Edge pawns attack a single square.
    let a2 = BitBoard::from_unshifted(8);
    assert_eq!(PieceType::pawn_attack(a2, Colour::White).value(), 1u64 << 17);
}
