use simbelmyne::bitboard::Bitboard;
use simbelmyne::board::{
    Board, BoardError, Color, InvalidColor, InvalidSquare, Piece, PieceType, Square,
};
use simbelmyne::movegen::castling::{CastleType, CastlingRights};

const START: &str = "rnbqkbnr/pppppppp/8/8/8/8/PPPPPPPP/RNBQKBNR w KQkq - 0 1";

#[test]
fn square_names_round_trip() {
    for i in 0..64usize {
        let sq = Square::from_index(i);
        assert_eq!(sq.index(), i);
        assert_eq!(Square::from_alg(sq.to_alg()), Ok(sq));
    }
}

#[test]
fn square_names_in_either_case() {
    assert_eq!(Square::from_alg("e4").map(|s| s.index()), Ok(28));
    assert_eq!(Square::from_alg("E4").map(|s| s.index()), Ok(28));
    assert_eq!(Square::from_alg("h8").map(|s| s.index()), Ok(63));
    assert_eq!(Square::from_alg("a1").map(|s| s.index()), Ok(0));
    assert_eq!("c3".parse::<Square>().map(|s| s.index()), Ok(18));
}

#[test]
fn square_name_errors() {
    assert_eq!(Square::from_alg("i1"), Err(InvalidSquare));
    assert_eq!(Square::from_alg("a9"), Err(InvalidSquare));
    assert_eq!(Square::from_alg("a0"), Err(InvalidSquare));
    assert_eq!(Square::from_alg("e"), Err(InvalidSquare));
    assert_eq!(Square::from_alg("e44"), Err(InvalidSquare));
    assert_eq!(Square::from_alg("-"), Err(InvalidSquare));
}

#[test]
fn square_rank_and_file() {
    let sq = Square::new(3, 4);
    assert_eq!(sq.rank(), 3);
    assert_eq!(sq.file(), 4);
    assert_eq!(sq.index(), 28);
    assert_eq!(sq.to_alg(), "e4");
    assert_eq!(Square::try_new(8, 0), None);
    assert_eq!(Square::try_new(0, 8), None);
    assert_eq!(Square::try_new(7, 7).map(|s| s.index()), Some(63));
}

#[test]
fn square_forward_and_backward() {
    let e4 = Square::new(3, 4);
    assert_eq!(e4.forward(Color::White).map(|s| s.to_alg()), Some("e5"));
    assert_eq!(e4.forward(Color::Black).map(|s| s.to_alg()), Some("e3"));
    assert_eq!(e4.backward(Color::White).map(|s| s.to_alg()), Some("e3"));
    assert_eq!(Square::new(7, 0).forward(Color::White), None);
}

#[test]
fn double_pushes() {
    let e2 = Square::new(1, 4);
    let e4 = Square::new(3, 4);
    let e3 = Square::new(2, 4);
    assert!(Square::is_double_push(e2, e4));
    assert!(!Square::is_double_push(e2, e3));
}

#[test]
fn color_names() {
    assert_eq!(Color::from_name("w"), Ok(Color::White));
    assert_eq!(Color::from_name("White"), Ok(Color::White));
    assert_eq!(Color::from_name("b"), Ok(Color::Black));
    assert_eq!(Color::from_name("black"), Ok(Color::Black));
    assert_eq!(Color::from_name("x"), Err(InvalidColor));
    assert_eq!(Color::from_name("WHITE"), Err(InvalidColor));
    assert_eq!("B".parse::<Color>(), Ok(Color::Black));
}

#[test]
fn opposite_side_twice_is_the_side() {
    for c in [Color::White, Color::Black] {
        assert_ne!(c.opp(), c);
        assert_eq!(c.opp().opp(), c);
    }
    assert!(Color::White.is_white());
    assert!(Color::Black.is_black());
}

#[test]
fn start_position_from_fen_is_the_new_board() {
    let read = Board::from_fen(START).unwrap();
    let new = Board::new();
    assert_eq!(read.current, Color::White);
    assert_eq!(read.current, new.current);
    assert_eq!(read.piece_list, new.piece_list);
    assert_eq!(read.piece_bbs, new.piece_bbs);
    assert_eq!(read.occupied_squares, new.occupied_squares);
    assert_eq!(read.castling_rights, new.castling_rights);
    assert_eq!(read.castling_rights, CastlingRights(0b1111));
    assert_eq!(read.en_passant, None);
    assert_eq!(read.half_moves, 0);
    assert_eq!(read.full_moves, 1);
    assert_eq!(new.piece_bbs[0], Bitboard(0x00FF00000000FF00));
    assert_eq!(new.occupied_squares[0], Bitboard(0x000000000000FFFF));
    assert_eq!(new.occupied_squares[1], Bitboard(0xFFFF000000000000));
}

#[test]
fn board_reads_every_field() {
    let fen = "4k3/8/8/3pP3/8/8/8/4K2R w K d6 7 42";
    assert!(Board::fen_fits(fen));
    let b = Board::from_fen(fen).unwrap();
    assert_eq!(b.current, Color::White);
    assert_eq!(b.castling_rights, CastlingRights(0b0010));
    assert_eq!(b.en_passant.map(|s| s.to_alg()), Some("d6"));
    assert_eq!(b.half_moves, 7);
    assert_eq!(b.full_moves, 42);
    let e1 = Square::new(0, 4);
    assert_eq!(
        b.get_at(e1),
        Some(&Piece { color: Color::White, piece_type: PieceType::King, position: Bitboard(1 << 4) })
    );
    assert_eq!(b.get_at(Square::new(1, 4)), None);
    assert_eq!(b.get_bb(PieceType::Pawn, Color::Black), Bitboard(1 << 35));
    assert_eq!(b.get_bb(PieceType::Pawn, Color::White), Bitboard(1 << 36));
    assert_eq!(b.occupied_by(Color::White), Bitboard((1 << 4) | (1 << 7) | (1 << 36)));
    assert_eq!(
        b.all_occupied(),
        Bitboard((1 << 4) | (1 << 7) | (1 << 36) | (1 << 35) | (1 << 60))
    );
}

#[test]
fn board_errors() {
    assert_eq!(Board::from_fen("").err(), Some(BoardError::Placement));
    assert_eq!(Board::from_fen("8/8/8/8/8/8/8/8").err(), Some(BoardError::MissingField));
    assert_eq!(Board::from_fen("x w - - 0 1").err(), Some(BoardError::Placement));
    assert_eq!(
        Board::from_fen("8/8/8/8/8/8/8/8 z - - 0 1").err(),
        Some(BoardError::InvalidColor)
    );
    assert_eq!(
        Board::from_fen("8/8/8/8/8/8/8/8 w KX - 0 1").err(),
        Some(BoardError::InvalidCastling)
    );
    assert_eq!(
        Board::from_fen("8/8/8/8/8/8/8/8 w - - 300 1").err(),
        Some(BoardError::InvalidCounter)
    );
    assert_eq!(
        Board::from_fen("8/8/8/8/8/8/8/8 w - - 0").err(),
        Some(BoardError::MissingField)
    );
    assert_eq!(
        Board::from_fen("8/8/8/8/8/8/8/8 w - - 0 x").err(),
        Some(BoardError::InvalidCounter)
    );
}

#[test]
fn fen_outside_the_board_does_not_fit() {
    assert!(Board::fen_fits(START));
    assert!(Board::fen_fits("x w - - 0 1"));
    assert!(!Board::fen_fits("K7K/8/8/8/8/8/8/8 w - - 0 1"));
    assert!(!Board::fen_fits("K/8/8/8/8/8/8/8/8 w - - 0 1"));
}

#[test]
fn add_and_remove_pieces() {
    let mut b = Board::from_fen("8/8/8/8/8/8/8/8 w - - 0 1").unwrap();
    let d4 = Square::new(3, 3);
    let knight = Piece { color: Color::Black, piece_type: PieceType::Knight, position: Bitboard(1 << 27) };
    assert_eq!(b.get_at(d4), None);
    b.add_at(d4, knight);
    assert_eq!(b.get_at(d4), Some(&knight));
    assert_eq!(b.get_bb(PieceType::Knight, Color::Black), Bitboard(1 << 27));
    assert_eq!(b.occupied_by(Color::Black), Bitboard(1 << 27));
    assert_eq!(b.remove_at(d4), Some(knight));
    assert_eq!(b.get_at(d4), None);
    assert_eq!(b.occupied_by(Color::Black), Bitboard(0));
    assert_eq!(b.remove_at(d4), None);

    // Removing what was just added restores the board.
    let mut b = Board::new();
    let before = b;
    b.add_at(d4, knight);
    assert_eq!(b.remove_at(d4), Some(knight));
    assert_eq!(b.piece_list, before.piece_list);
    assert_eq!(b.piece_bbs, before.piece_bbs);
    assert_eq!(b.occupied_squares, before.occupied_squares);
}

#[test]
fn checks_and_pins() {
    // The black rook on e8 checks the white king on e1.
    let b = Board::from_fen("4r2k/8/8/8/8/8/8/4K3 w - - 0 1").unwrap();
    assert_eq!(b.compute_checkers(Color::Black), Bitboard(1 << 60));
    assert_eq!(b.compute_checkers(Color::White), Bitboard(0));
    // The white knight on e2 is pinned by the rook on e8.
    let b = Board::from_fen("4r2k/8/8/8/8/8/4N3/4K3 w - - 0 1").unwrap();
    assert_eq!(b.compute_checkers(Color::Black), Bitboard(0));
    let pins = b.compute_pinrays(Color::White);
    assert!(pins.iter().any(|ray| ray.0 & (1 << 12) != 0));
    assert!(b.is_xray_check(Color::White, Bitboard(1 << 12)));
    assert!(!b.is_xray_check(Color::White, Bitboard(1 << 13)));
}

#[test]
fn start_position_moves_come_from_white_pieces() {
    let b = Board::new();
    let moves = b.legal_moves();
    // Sixteen pawn moves (eight of them double pushes) and four knight moves.
    assert_eq!(moves.len(), 20);
    assert_eq!(moves.iter().filter(|m| m.is_double_push()).count(), 8);
    let white = b.occupied_by(Color::White);
    for (i, mv) in moves.iter().enumerate() {
        assert!(white.0 & (1u64 << mv.src().index()) != 0);
        assert!(!mv.is_castle());
        assert!(!mv.is_en_passant());
        for other in &moves[i + 1..] {
            assert!(mv.src() != other.src() || mv.tgt() != other.tgt());
        }
    }
}

#[test]
fn castles_need_an_empty_path() {
    let b = Board::from_fen("4k3/8/8/8/8/8/8/R3K2R w KQ - 0 1").unwrap();
    assert!(b.legal_moves_defined());
    let moves = b.legal_moves();
    assert!(moves.contains(&CastleType::WQ.king_move()));
    assert!(moves.contains(&CastleType::WK.king_move()));
    // A knight on b1 blocks the long castle only.
    let b = Board::from_fen("4k3/8/8/8/8/8/8/RN2K2R w KQ - 0 1").unwrap();
    let moves = b.legal_moves();
    assert!(!moves.contains(&CastleType::WQ.king_move()));
    assert!(moves.contains(&CastleType::WK.king_move()));
}

#[test]
fn a_pinned_rook_stays_on_its_pin_ray() {
    let b = Board::from_fen("4k3/4r3/8/8/8/8/4R3/4K3 w - - 0 1").unwrap();
    assert!(b.legal_moves_defined());
    let mut targets: Vec<usize> =
        b.legal_moves().iter().filter(|m| m.src().index() == 12).map(|m| m.tgt().index()).collect();
    targets.sort();
    assert_eq!(targets, vec![20, 28, 36, 44, 52]);
}

#[test]
fn in_check_a_bishop_may_only_block() {
    let b = Board::from_fen("4k3/4r3/8/8/8/8/8/2B1K3 w - - 0 1").unwrap();
    assert!(b.legal_moves_defined());
    let targets: Vec<usize> =
        b.legal_moves().iter().filter(|m| m.src().index() == 2).map(|m| m.tgt().index()).collect();
    assert_eq!(targets, vec![20]);
    // The king may not step along the checking file.
    for mv in b.legal_moves().iter().filter(|m| m.src().index() == 4) {
        assert!(mv.tgt().index() % 8 != 4);
    }
}

#[test]
fn a_pawn_check_leaves_only_king_moves() {
    let b = Board::from_fen("4k3/8/8/8/8/8/3p4/4K2R w K - 0 1").unwrap();
    assert!(b.legal_moves_defined());
    let moves = b.legal_moves();
    assert!(!moves.is_empty());
    for mv in &moves {
        assert_eq!(mv.src().index(), 4);
        assert!(!mv.is_castle());
    }
}

#[test]
fn a_lone_king_in_the_corner_has_three_moves() {
    let b = Board::from_fen("7k/8/8/8/8/8/8/K7 w - - 0 1").unwrap();
    assert_eq!(b.king_danger_squares(Color::Black), Bitboard((1 << 1) | (1 << 8) | (1 << 9)));
    assert_eq!(b.king_danger_squares(Color::White), Bitboard((1 << 62) | (1 << 54) | (1 << 55)));
    let mut targets: Vec<usize> = b.legal_moves().iter().map(|m| m.tgt().index()).collect();
    targets.sort();
    assert_eq!(targets, vec![1, 8, 9]);
}

#[test]
fn a_knight_in_the_corner_has_two_moves() {
    let b = Board::from_fen("7k/8/8/8/8/8/8/N6K w - - 0 1").unwrap();
    let mut targets: Vec<usize> =
        b.legal_moves().iter().filter(|m| m.src().index() == 0).map(|m| m.tgt().index()).collect();
    targets.sort();
    assert_eq!(targets, vec![10, 17]);
}

#[test]
fn move_generation_is_defined_on_boards_read_from_fen() {
    assert!(Board::new().legal_moves_defined());
    let b = Board::from_fen("4r2k/8/8/8/8/8/4N3/4K3 w - - 0 1").unwrap();
    assert!(b.legal_moves_defined());
}

#[test]
fn move_generation_needs_a_piece_on_every_occupied_square() {
    let mut b = Board::new();
    b.occupied_squares[0] = Bitboard(b.occupied_squares[0].0 | (1 << 30));
    assert!(!b.legal_moves_defined());

    let mut b = Board::new();
    b.piece_list[0] = Some(Piece { color: Color::White, piece_type: PieceType::Rook, position: Bitboard(1 << 1) });
    assert!(!b.legal_moves_defined());
}
