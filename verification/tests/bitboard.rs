use simbelmyne::bitboard::{Bitboard, Step};

#[test]
fn position_new_00() {
    assert_eq!(Bitboard::new(0, 0).0, 1);
}

#[test]
fn position_new_10() {
    assert_eq!(Bitboard::new(1, 0).0.trailing_zeros(), 8);
}

#[test]
fn position_new_05() {
    assert_eq!(Bitboard::new(0, 5).0.trailing_zeros(), 5);
}

#[test]
fn position_new_25() {
    assert_eq!(Bitboard::new(2, 5).0.trailing_zeros(), 21);
}

#[test]
fn position_rank() {
    assert_eq!(Bitboard::new(2, 5).rank(), 2);
    assert_eq!(Bitboard::new(7, 7).rank(), 7);
    assert_eq!(Bitboard::new(4, 2).rank(), 4);
}

#[test]
fn position_file() {
    assert_eq!(Bitboard::new(2, 5).file(), 5);
    assert_eq!(Bitboard::new(7, 7).file(), 7);
    assert_eq!(Bitboard::new(4, 2).file(), 2);
}

#[test]
fn test_offset() {
    assert_eq!(
        Bitboard::new(1, 1).offset(Step { delta_rank: 1, delta_file: 1 }),
        Some(Bitboard::new(2, 2))
    );

    assert_eq!(
        Bitboard::new(1, 1).offset(Step { delta_rank: -1, delta_file: 1 }),
        Some(Bitboard::new(0, 2))
    );

    assert_eq!(
        Bitboard::new(1, 1).offset(Step { delta_rank: -2, delta_file: 1 }),
        None
    );

    assert_eq!(
        Bitboard::new(1, 1).offset(Step { delta_rank: 1, delta_file: 6 }),
        Some(Bitboard::new(2, 7))
    );

    assert_eq!(
        Bitboard::new(1, 1).offset(Step { delta_rank: 1, delta_file: 7 }),
        None
    );
}
