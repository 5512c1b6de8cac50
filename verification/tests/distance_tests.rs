use chess_core::square::{distance, Square};

fn sq(i: u64) -> Square {
    Square::from_index(i).unwrap()
}

#[test]
fn file_distance() {
    assert_eq!(distance(sq(0), sq(56)), 7);
    assert_eq!(distance(sq(0), sq(24)), 3);
}

#[test]
fn rank_distance() {
    assert_eq!(distance(sq(0), sq(7)), 7);
    assert_eq!(distance(sq(0), sq(4)), 4);
}

#[test]
fn diag_distance() {
    assert_eq!(distance(sq(0), sq(63)), 7);
    assert_eq!(distance(sq(0), sq(45)), 5);
}

#[test]
fn non_ray_distance() {
    assert_eq!(distance(sq(0), sq(57)), 7);
    assert_eq!(distance(sq(0), sq(10)), 2);
}
