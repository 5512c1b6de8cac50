use chess_core::bitboard::BitBoard;
use chess_core::square::Square;
use chess_core::tables::{line_between, AttackTables};

fn sq(i: u64) -> Square {
    Square::from_index(i).unwrap()
}

fn line_entry(t: &AttackTables, a: u64, b: u64) -> BitBoard {
    t.line[(a * 64 + b) as usize]
}

#[test]
fn line_intersecting_rook() {
    let t = AttackTables::new().unwrap();
    let connecting = line_entry(&t, 9, 49);
    println!("Connecting:{}", connecting.to_grid());
    assert_eq!(connecting, BitBoard::from_shifted(0x202020202020202));
}

#[test]
fn line_intersecting_bishop() {
    let t = AttackTables::new().unwrap();
    let connecting = line_entry(&t, 10, 46);
    println!("Connecting:{}", connecting.to_grid());
    assert_eq!(connecting, BitBoard::from_shifted(0x80402010080402));
}

#[test]
fn mod_line_intersecting_rook() {
    let t = AttackTables::new().unwrap();
    let connecting = line_entry(&t, 9, 49);
    assert_eq!(connecting, BitBoard::from_shifted(0x202020202020202));
}

#[test]
fn mod_line_intersecting_bishop() {
    let t = AttackTables::new().unwrap();
    let connecting = line_entry(&t, 10, 46);
    assert_eq!(connecting, BitBoard::from_shifted(0x80402010080402));
}

#[test]
fn line_between_rook() {
    let t = AttackTables::new().unwrap();
    let between = line_between(&t, sq(10), sq(58));
    println!("Between:{}", between.to_grid());
    assert_eq!(between, BitBoard::from_shifted(0x4040404040000));
}

#[test]
fn line_between_bishop() {
    let t = AttackTables::new().unwrap();
    let between = line_between(&t, sq(18), sq(54));
    println!("Between:{}", between.to_grid());
    assert_eq!(between, BitBoard::from_shifted(0x201008000000));
}

#[test]
fn test_line_between() {
    let t = AttackTables::new().unwrap();
    let between = line_between(&t, sq(5), sq(61));
    println!("Between:{}", between.to_grid());
    assert_eq!(between, BitBoard::from_shifted(0x20202020202000));
}

#[test]
fn line_between_unaligned_is_empty() {
    let t = AttackTables::new().unwrap();
    // a1 and b3 share no rank, file or diagonal.
    assert_eq!(line_between(&t, sq(0), sq(17)), BitBoard::from_shifted(0));
    // Adjacent aligned squares have nothing strictly between them.
    assert_eq!(line_between(&t, sq(0), sq(1)), BitBoard::from_shifted(0));
}
