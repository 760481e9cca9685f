use simbelmyne::bitboard::{Bitboard, Step};
use simbelmyne::board::{Color, Piece, PieceType, Square};
use simbelmyne::evaluate::accumulator::PieceTypeSet;
use simbelmyne::evaluate::util::{ScoreExt, MATE, S};
use simbelmyne::evaluate::Score;
use simbelmyne::fen::{FENAtom, FEN};
use simbelmyne::history_tables::threats::ThreatIndex;
use simbelmyne::movegen::castling::{CastleType, CastlingRights, InvalidCastlingRights};
use simbelmyne::movegen::moves::Move;
use simbelmyne::text::{parse_u8, split_fields};

#[test]
fn packed_scores_round_trip() {
    for (mg, eg) in [(10, -20), (-1, 0), (0, -1), (-300, 450), (32767, 32767), (-32768, 100)] {
        let s = S::new(mg, eg);
        assert_eq!(s.mg(), mg);
        assert_eq!(s.eg(), eg);
    }
}

#[test]
fn the_default_packed_score_is_zero() {
    assert_eq!(S::default(), S::new(0, 0));
    assert_eq!(S::default().mg(), 0);
    assert_eq!(S::default().eg(), 0);
}

#[test]
fn packed_score_arithmetic() {
    assert_eq!(S::new(10, 20) + S::new(-3, 5), S::new(7, 25));
    assert_eq!(S::new(10, 20) - S::new(-3, 5), S::new(13, 15));
    assert_eq!(S::new(3, -4) * 5, S::new(15, -20));
    assert_eq!(-S::new(3, -4), S::new(-3, 4));
}

#[test]
fn packed_score_interpolation() {
    let s = S::new(100, 40);
    assert_eq!(s.lerp(24), 100);
    assert_eq!(s.lerp(0), 40);
    assert_eq!(s.lerp(12), 70);
    assert_eq!(S::new(-1, 0).lerp(12), 0);
}

#[test]
fn tapered_totals() {
    let s = Score { game_phase: 24, mg_score: 100, eg_score: -50 };
    assert_eq!(s.total(), 100);
    assert_eq!(s.mg_weight(), 24);
    assert_eq!(s.eg_weight(), 0);
    let s = Score { game_phase: 12, mg_score: 100, eg_score: -50 };
    assert_eq!(s.total(), 25);
    let s = Score { game_phase: 12, mg_score: -1, eg_score: 0 };
    assert_eq!(s.total(), 0);
    let d = Score::default();
    assert_eq!((d.game_phase, d.mg_score, d.eg_score), (0, 0, 0));
}

#[test]
fn flipped_score_takes_the_negated_midgame_score() {
    let s = Score { game_phase: 7, mg_score: 30, eg_score: 11 };
    let f = s.flipped();
    assert_eq!((f.game_phase, f.mg_score, f.eg_score), (7, -30, -30));
}

#[test]
fn mate_scores() {
    assert!(MATE.is_mate());
    assert!((MATE - 218).is_mate());
    assert!(!(MATE - 219).is_mate());
    assert!((-19_990i32).is_mate());
    assert!(!100i32.is_mate());
    assert_eq!(19_995i32.mate_distance(), 5);
    assert_eq!((-19_995i32).mate_distance(), 5);
}

#[test]
fn relative_and_absolute_undo_each_other() {
    assert_eq!(19_990i32.relative(3), 19_993);
    assert_eq!(19_993i32.absolute(3), 19_990);
    assert_eq!(100i32.relative(5), 100);
    assert_eq!(100i32.absolute(5), 100);
    for s in [19_900i32, -19_950, 20_000, 0, 1234] {
        assert_eq!(s.relative(7).absolute(7), s);
    }
}

#[test]
fn castling_fields() {
    assert_eq!(CastlingRights::from_field("KQkq"), Ok(CastlingRights(0b1111)));
    assert_eq!(CastlingRights::from_field("Kq"), Ok(CastlingRights(0b0110)));
    assert_eq!(CastlingRights::from_field("-"), Ok(CastlingRights(0)));
    assert_eq!(CastlingRights::from_field(""), Ok(CastlingRights(0)));
    assert_eq!(CastlingRights::from_field("Kx"), Err(InvalidCastlingRights));
    assert_eq!(
        CastlingRights::from_fen("rnbqkbnr/pppppppp/8/8/8/8/PPPPPPPP/RNBQKBNR w KQkq - 0 1"),
        Ok(CastlingRights(0b1111))
    );
    assert_eq!(CastlingRights::from_fen("8/8/8/8/8/8/8/8 w"), Err(InvalidCastlingRights));
    assert_eq!("8/8/8/8/8/8/8/8 w Qk - 0 1".parse::<CastlingRights>(), Ok(CastlingRights(0b1001)));
}

#[test]
fn castling_rights_add_and_remove() {
    let mut r = CastlingRights::none();
    r.add(CastlingRights::wk());
    r.add(CastlingRights::bq());
    assert!(r.is_available(&CastleType::WK));
    assert!(r.is_available(&CastleType::BQ));
    assert!(!r.is_available(&CastleType::WQ));
    r.remove(CastlingRights::wk());
    assert_eq!(r, CastlingRights::bq());
    r.toggle(CastlingRights::bk());
    assert_eq!(r, CastlingRights(0b1100));
    r.toggle(CastlingRights::bk());
    assert_eq!(r, CastlingRights::bq());
}

#[test]
fn removing_a_right_twice_changes_nothing() {
    let mut r = CastlingRights::new();
    r.remove(CastlingRights::wk());
    assert_eq!(r.get_available(Color::White), vec![CastleType::WQ]);
    assert_eq!(r.get_available(Color::Black), vec![CastleType::BQ, CastleType::BK]);
    let once = r;
    r.remove(CastlingRights::wk());
    assert_eq!(r, once);
}

#[test]
fn toggling_flips_one_right() {
    let mut r = CastlingRights::new();
    r.toggle(CastlingRights::wq());
    assert!(!r.is_available(&CastleType::WQ));
    assert!(r.is_available(&CastleType::WK));
    assert!(r.is_available(&CastleType::BQ));
    assert!(r.is_available(&CastleType::BK));
    r.toggle(CastlingRights::wq());
    assert_eq!(r, CastlingRights::new());
}

#[test]
fn available_castles() {
    let all = CastlingRights::new();
    assert_eq!(all.get_available(Color::White), vec![CastleType::WQ, CastleType::WK]);
    assert_eq!(all.get_available(Color::Black), vec![CastleType::BQ, CastleType::BK]);
    let r = CastlingRights::bk();
    assert_eq!(r.get_available(Color::White), vec![]);
    assert_eq!(r.get_available(Color::Black), vec![CastleType::BK]);
}

#[test]
fn castle_moves() {
    let mv = CastleType::WK.king_move();
    assert_eq!(mv.src().to_alg(), "e1");
    assert_eq!(mv.tgt().to_alg(), "g1");
    assert!(mv.is_castle());
    assert_eq!(CastleType::from_move(&mv), Some(CastleType::WK));
    for c in CastleType::get_all() {
        assert_eq!(CastleType::from_move(&c.king_move()), Some(c));
    }
    let rook = CastleType::BQ.rook_move();
    assert_eq!(rook.src().to_alg(), "a8");
    assert_eq!(rook.tgt().to_alg(), "d8");
    assert!(!rook.is_castle());
    assert_eq!(CastleType::from_move(&Move::new(Square::new(1, 4), Square::new(3, 4))), None);
    assert_eq!(CastleType::BQ.color(), Color::Black);
    assert_eq!(CastleType::WQ.vuln(), Bitboard(0x1C));
    assert_eq!(CastleType::get_all(), [CastleType::WQ, CastleType::WK, CastleType::BQ, CastleType::BK]);
}

#[test]
fn move_flags_are_independent() {
    let mut mv = Move::new(Square::new(1, 4), Square::new(3, 4));
    mv.set_double_push();
    let once = mv;
    mv.set_double_push();
    assert_eq!(mv, once);
    assert_eq!(mv.src(), Square::new(1, 4));
    assert_eq!(mv.tgt(), Square::new(3, 4));
    assert!(mv.is_double_push());
    assert!(!mv.is_castle());
    assert!(!mv.is_en_passant());
    mv.set_en_passant();
    assert!(mv.is_en_passant());
    assert_eq!(mv.src().to_alg(), "e2");
    assert_eq!(mv.tgt().to_alg(), "e4");
    assert_eq!(Move::null(), Move(0));
}

#[test]
fn piece_moves() {
    let knight = Piece { color: Color::White, piece_type: PieceType::Knight, position: Bitboard(1) };
    assert_eq!(knight.range(), 1);
    assert_eq!(knight.directions().len(), 8);
    assert_eq!(knight.visible_squares(Bitboard(0), Bitboard(0)), Bitboard((1 << 10) | (1 << 17)));

    let rook = Piece { color: Color::Black, piece_type: PieceType::Rook, position: Bitboard(1) };
    assert_eq!(rook.range(), 7);
    // A blocker on a4 stops the rook there; the rank stays open.
    let seen = rook.visible_squares(Bitboard(0), Bitboard(1 << 24));
    assert_eq!(seen, Bitboard((1 << 8) | (1 << 16) | (1 << 24) | 0xFE));

    let rays = rook.visible_rays(Bitboard(1 << 24));
    assert_eq!(rays.len(), 4);
    assert!(rays.iter().any(|r| *r == Bitboard((1 << 8) | (1 << 16) | (1 << 24))));
}

#[test]
fn pawn_range_depends_on_its_rank() {
    let fresh = Piece { color: Color::White, piece_type: PieceType::Pawn, position: Bitboard(1 << 12) };
    assert_eq!(fresh.range(), 2);
    let moved = Piece { color: Color::White, piece_type: PieceType::Pawn, position: Bitboard(1 << 20) };
    assert_eq!(moved.range(), 1);
    let black = Piece { color: Color::Black, piece_type: PieceType::Pawn, position: Bitboard(1 << 52) };
    assert_eq!(black.range(), 2);
    let corner = Piece { color: Color::White, piece_type: PieceType::Pawn, position: Bitboard(1 << 4) };
    assert_eq!(corner.range(), 1);
}

#[test]
fn bitboard_squares() {
    let mut bb = Bitboard(0b1010_0000);
    assert_eq!(bb.next().map(|s| s.index()), Some(5));
    assert_eq!(bb.next().map(|s| s.index()), Some(7));
    assert_eq!(bb.next(), None);
    assert!(bb.is_empty());
    assert_eq!(Square::from_bitboard(Bitboard(1 << 40)).index(), 40);
    assert_eq!(Bitboard::from_square(Square::new(2, 1)), Bitboard(1 << 17));
    assert!(Bitboard(0b11).contains(Bitboard(0b10)));
    assert!(!Bitboard(0b01).contains(Bitboard(0b11)));
    assert!(Bitboard(0b11).has_overlap(Bitboard(0b110)));
    assert_eq!(Bitboard(0b111).remove(Bitboard(0b010)), Bitboard(0b101));
    let mut b = Bitboard::empty();
    b.add_in_place(Bitboard(0b100));
    assert_eq!(b, Bitboard(0b100));
    assert!(Bitboard(1 << 9).is_single());
    assert!(!Bitboard(0b11).is_single());
    assert_eq!(Bitboard(0b1100) & Bitboard(0b1010), Bitboard(0b1000));
    assert_eq!(Bitboard(0b1100) | Bitboard(0b1010), Bitboard(0b1110));
    assert_eq!(Bitboard(0b1100) ^ Bitboard(0b1010), Bitboard(0b0110));
    assert_eq!(!Bitboard(0), Bitboard(u64::MAX));
}

#[test]
fn steps() {
    assert_eq!(Step::up() + Step::right(), Step::up_right());
    assert_eq!(Step::down() + Step::left(), Step::down_left());
    assert_eq!(Step::forward(Color::White), Step::up());
    assert_eq!(Step::forward(Color::Black), Step::down());
    assert_eq!(Step::ortho_dirs().len(), 4);
    assert_eq!(Step::new(2, -1), Step { delta_rank: 2, delta_file: -1 });
    let ray = Bitboard::ray_from(Bitboard(1), Step::up_right(), 7, Bitboard(1 << 27));
    assert_eq!(ray, Bitboard((1 << 9) | (1 << 18) | (1 << 27)));
    assert_eq!(Bitboard(1).visible_ray(Step::up_right(), Bitboard(1 << 27)), ray);
}

#[test]
fn piece_type_sets() {
    let mut set = PieceTypeSet::new();
    assert_eq!(set, PieceTypeSet(0));
    set.add(PieceType::Knight);
    set.add(PieceType::King);
    assert_eq!(set, PieceTypeSet(0b10_0010));
    assert_eq!(set.next(), Some(PieceType::Knight));
    assert_eq!(set, PieceTypeSet(0b10_0000));
    assert_eq!(set.next(), Some(PieceType::King));
    assert_eq!(set, PieceTypeSet(0));
    assert_eq!(set.next(), None);
    assert_eq!(set, PieceTypeSet(0));
    let mut all = PieceTypeSet(0b11_1111);
    let mut seen = Vec::new();
    while let Some(t) = all.next() {
        seen.push(t);
    }
    assert_eq!(
        seen,
        vec![PieceType::Pawn, PieceType::Knight, PieceType::Bishop, PieceType::Rook, PieceType::Queen, PieceType::King]
    );
}

#[test]
fn threat_indices() {
    let mv = Move::new(Square::new(1, 4), Square::new(3, 4));
    let t = ThreatIndex::new(Bitboard(1 << 12), mv);
    assert_eq!((t.from_threat(), t.to_threat()), (1, 0));
    let t = ThreatIndex::new(Bitboard(1 << 28), mv);
    assert_eq!((t.from_threat(), t.to_threat()), (0, 1));
}

#[test]
fn text_fields_and_numbers() {
    assert_eq!(split_fields("a b  c"), vec!["a", "b", "", "c"]);
    assert_eq!(split_fields(""), vec![""]);
    assert_eq!(parse_u8("0"), Some(0));
    assert_eq!(parse_u8("255"), Some(255));
    assert_eq!(parse_u8("256"), None);
    assert_eq!(parse_u8(""), None);
    assert_eq!(parse_u8("1a"), None);
    assert_eq!(parse_u8("+7"), Some(7));
    assert_eq!(parse_u8("+"), None);
    assert_eq!(parse_u8("007"), Some(7));
}

#[test]
fn fen_placements() {
    let fen = FEN::try_from("8/8/8/8/8/8/8/R3K2r w KQ - 0 1").unwrap();
    assert_eq!(fen.ranks.len(), 8);
    assert_eq!(
        fen.ranks[7],
        vec![
            FENAtom::Piece(Color::White, PieceType::Rook),
            FENAtom::Gap(3),
            FENAtom::Piece(Color::White, PieceType::King),
            FENAtom::Gap(2),
            FENAtom::Piece(Color::Black, PieceType::Rook),
        ]
    );
    assert!(FEN::try_from("?").is_err());
}

#[test]
fn union_of_bitboards() {
    assert_eq!(Bitboard::from(vec![Bitboard(1), Bitboard(4), Bitboard(5)]), Bitboard(5));
    assert_eq!(Bitboard::from(Vec::<Bitboard>::new()), Bitboard(0));
    assert_eq!(Bitboard::union_of(&vec![Bitboard(1 << 63), Bitboard(2)]), Bitboard((1 << 63) | 2));
}
