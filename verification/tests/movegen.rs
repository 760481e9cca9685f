use simbelmyne::board::Square;
use simbelmyne::movegen::moves::Move;

#[test]
fn src_works() {
    let src = Square::new(3, 4);
    let tgt = Square::new(4, 5);

    let mv = Move::new(src, tgt);
    assert_eq!(mv.src(), src.into(), "mv.src() should return the source position, as a bitboard");
}

#[test]
fn tgt_works() {
    let src = Square::new(3, 4);
    let tgt = Square::new(4, 5);

    let mv = Move::new(src, tgt);
    assert_eq!(mv.tgt(), tgt.into(), "mv.tgt() should return the source target, as a bitboard");
}

#[test]
fn castling_bit() {
    let src = Square::new(3, 4);
    let tgt = Square::new(4, 5);

    let mut mv = Move::new(src, tgt);
    assert!(!mv.is_castle(), "is_castle returns false for a normal move");

    mv.set_castle();
    assert!(mv.is_castle(), "is_castle returns true after setting the castle bit");
}
