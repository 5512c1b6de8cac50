use chess_core::bitboard::{BitBoard, Direction, FILE_A, FILE_B, FILE_G, FILE_H, RANK_1, RANK_2,
    RANK_7, RANK_8};

#[test]
fn shift_north() {
    assert_eq!(
        BitBoard::from_shifted(RANK_1).shift(Direction::North),
        BitBoard::from_shifted(RANK_2)
    );
}

#[test]
fn shift_northeast() {
    let a1 = BitBoard::from_shifted(FILE_A | RANK_1);
    assert_eq!(a1.shift(Direction::NorthEast), BitBoard::from_shifted(0x20202020202fe00));
}

#[test]
fn shift_east() {
    assert_eq!(
        BitBoard::from_shifted(FILE_A).shift(Direction::East),
        BitBoard::from_shifted(FILE_B)
    );
}

#[test]
fn shift_southeast() {
    let a8 = BitBoard::from_shifted(FILE_A | RANK_8);
    assert_eq!(a8.shift(Direction::SouthEast), BitBoard::from_shifted(0xfe020202020202));
}

#[test]
fn shift_south() {
    assert_eq!(
        BitBoard::from_shifted(RANK_8).shift(Direction::South),
        BitBoard::from_shifted(RANK_7)
    );
}

#[test]
fn shift_southwest() {
    let h8 = BitBoard::from_shifted(FILE_H | RANK_8);
    assert_eq!(h8.shift(Direction::SouthWest), BitBoard::from_shifted(0x7f404040404040));
}

#[test]
fn shift_west() {
    assert_eq!(
        BitBoard::from_shifted(FILE_H).shift(Direction::West),
        BitBoard::from_shifted(FILE_G)
    );
}

#[test]
fn shift_northwest() {
    let h1 = BitBoard::from_shifted(FILE_H | RANK_1);
    assert_eq!(h1, BitBoard::from_shifted(0x80808080808080ff));
    assert_eq!(h1.shift(Direction::NorthWest), BitBoard::from_shifted(0x4040404040407f00));
}

#[test]
fn shift_h8() {
    let h8 = BitBoard::from_shifted(1 << 63);
    assert_eq!(h8.shift(Direction::North), BitBoard::from_shifted(0));
    assert_eq!(h8.shift(Direction::NorthEast), BitBoard::from_shifted(0));
    assert_eq!(h8.shift(Direction::East), BitBoard::from_shifted(0));
}

#[test]
fn shift_full_board() {
    let all = BitBoard::from_shifted(u64::MAX);
    assert_eq!(all.shift(Direction::North), all.xor(BitBoard::from_shifted(RANK_1)));
    assert_eq!(
        all.shift(Direction::NorthEast),
        all.xor(BitBoard::from_shifted(FILE_A | RANK_1))
    );
    assert_eq!(all.shift(Direction::East), all.xor(BitBoard::from_shifted(FILE_A)));
    assert_eq!(
        all.shift(Direction::SouthEast),
        all.xor(BitBoard::from_shifted(FILE_A | RANK_8))
    );
    assert_eq!(all.shift(Direction::South), all.xor(BitBoard::from_shifted(RANK_8)));
    assert_eq!(
        all.shift(Direction::SouthWest),
        all.xor(BitBoard::from_shifted(FILE_H | RANK_8))
    );
    assert_eq!(all.shift(Direction::West), all.xor(BitBoard::from_shifted(FILE_H)));
    assert_eq!(
        all.shift(Direction::NorthWest),
        all.xor(BitBoard::from_shifted(FILE_H | RANK_1))
    );
}
