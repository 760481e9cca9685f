use simbelmyne::bitboard::Bitboard;
use simbelmyne::board::{Board, Color, Piece, PieceType, Square};
use simbelmyne::movegen::castling::CastleType;
use simbelmyne::movegen::moves::Move;
use simbelmyne::search_tables::PVTable;

#[test]
fn piece_letters() {
    let p = Piece { color: Color::White, piece_type: PieceType::Knight, position: Bitboard(1) };
    assert_eq!(p.to_string(), "N");
    let p = Piece { color: Color::Black, piece_type: PieceType::Queen, position: Bitboard(1) };
    assert_eq!(p.to_string(), "q");
}

#[test]
fn side_names() {
    assert_eq!(Color::White.to_string(), "White");
    assert_eq!(Color::Black.to_string(), "Black");
}

#[test]
fn move_text() {
    let mv = Move::new(Square::new(1, 4), Square::new(3, 4));
    assert_eq!(mv.to_string(), "e2e4");
    assert_eq!(CastleType::BK.king_move().to_string(), "e8g8 (Castle)");
}

#[test]
fn start_board_text() {
    let expected = [
        "  a b c d e f g h ",
        "8 r n b q k b n r 8",
        "7 p p p p p p p p 7",
        "6 . . . . . . . . 6",
        "5 . . . . . . . . 5",
        "4 . . . . . . . . 4",
        "3 . . . . . . . . 3",
        "2 P P P P P P P P 2",
        "1 R N B Q K B N R 1",
        "  a b c d e f g h ",
    ]
    .join("\n");
    assert_eq!(Board::new().to_string(), expected);
}

#[test]
fn principal_variation_text() {
    let empty = PVTable::new();
    assert_eq!(empty.to_string(), "pv a1a1");
    let mut pv = PVTable::new();
    pv.add_to_front(Move::new(Square::new(1, 4), Square::new(3, 4)), &empty);
    assert_eq!(pv.to_string(), "pv e2e4 a1a1");
}

#[test]
fn the_slot_past_a_variation_is_carried_along() {
    let empty = PVTable::new();
    let mut child = PVTable::new();
    child.add_to_front(Move::new(Square::new(6, 4), Square::new(4, 4)), &empty);
    child.add_to_front(Move::new(Square::new(1, 4), Square::new(3, 4)), &child.clone());
    child.clear();
    // The cleared table still holds e2e4 in its first slot, just past its
    // (empty) variation; prepending to it carries that slot along.
    let mut parent = PVTable::new();
    parent.add_to_front(Move::new(Square::new(0, 6), Square::new(2, 5)), &child);
    assert_eq!(parent.to_string(), "pv g1f3 e2e4");
}
