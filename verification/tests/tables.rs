use simbelmyne::bitboard::Bitboard;
use simbelmyne::board::{Board, Color, Piece, PieceType, Square};
use simbelmyne::history_tables::corrhist::{CorrHistEntry, CorrHistTable, MAX_VALUE};
use simbelmyne::movegen::moves::Move;
use simbelmyne::search::params::{lmr_reduction, LMR_TABLE};
use simbelmyne::search_tables::{HistoryIndex, HistoryScore, HistoryTable, Killers, PVTable, MAX_HIST_SCORE};
use simbelmyne::transpositions::{NodeType, TTEntry, TTable, ZKey};
use simbelmyne::zobrist::ZHash;

fn mv(src: usize, tgt: usize) -> Move {
    Move::new(Square::from_index(src), Square::from_index(tgt))
}

#[test]
fn pv_prepends_a_move() {
    let empty = PVTable::new();
    assert!(empty.moves().is_empty());
    let mut child = PVTable::new();
    child.add_to_front(mv(12, 28), &empty);
    assert_eq!(child.moves(), &[mv(12, 28)]);
    let mut parent = PVTable::new();
    parent.add_to_front(mv(52, 36), &child);
    assert_eq!(parent.moves(), &[mv(52, 36), mv(12, 28)]);
    assert_eq!(parent.pv_move(), mv(52, 36));
    parent.clear();
    assert!(parent.moves().is_empty());
}

#[test]
fn killers_keep_the_two_latest_distinct_moves() {
    let mut k = Killers::new();
    assert_eq!(k.len(), 0);
    k.add(mv(1, 18));
    assert_eq!(k.moves(), &[mv(1, 18)]);
    k.add(mv(6, 21));
    assert_eq!(k.moves(), &[mv(6, 21), mv(1, 18)]);
    k.add(mv(1, 18));
    assert_eq!(k.moves(), &[mv(6, 21), mv(1, 18)]);
    k.add(mv(12, 28));
    assert_eq!(k.moves(), &[mv(12, 28), mv(6, 21)]);
    assert_eq!(k.len(), 2);
}

#[test]
fn a_killer_already_stored_leaves_the_table_unchanged() {
    let mut k = Killers::new();
    k.add(mv(1, 18));
    k.add(mv(6, 21));
    k.add(mv(6, 21));
    assert_eq!(k.moves(), &[mv(6, 21), mv(1, 18)]);
    k.add(mv(1, 18));
    assert_eq!(k.moves(), &[mv(6, 21), mv(1, 18)]);
}

#[test]
fn killers_ignore_the_null_move_of_an_empty_slot() {
    let mut k = Killers::new();
    k.add(Move::null());
    assert_eq!(k.len(), 0);
}

#[test]
fn history_bonus_and_penalty() {
    assert_eq!(HistoryScore::bonus(1), HistoryScore(16));
    assert_eq!(HistoryScore::bonus(2), HistoryScore(192));
    assert_eq!(HistoryScore::bonus(13), HistoryScore(4240));
    assert_eq!(HistoryScore::bonus(14), HistoryScore(32));
    assert_eq!(HistoryScore::penalty(2), HistoryScore(24));
    assert_eq!(HistoryScore::penalty(1), HistoryScore(2));
}

#[test]
fn history_addition_is_tapered() {
    assert_eq!(HistoryScore(0) + HistoryScore(100), HistoryScore(100));
    assert_eq!(HistoryScore(MAX_HIST_SCORE) + HistoryScore(100), HistoryScore(MAX_HIST_SCORE));
    assert_eq!(HistoryScore(8000) + HistoryScore(1000), HistoryScore(8512));
    assert_eq!(HistoryScore(8000) - HistoryScore(1000), HistoryScore(6512));
    assert_eq!(-HistoryScore(5), HistoryScore(-5));
}

#[test]
fn history_addition_saturates() {
    let top = HistoryScore(MAX_HIST_SCORE);
    let bottom = HistoryScore(-MAX_HIST_SCORE);
    assert_eq!(top + top, top);
    assert_eq!(bottom + bottom, bottom);
    assert_eq!(bottom + top, top);
    assert_eq!(top + bottom, bottom);
    let mut s = HistoryScore(0);
    for _ in 0..1000 {
        s = s + HistoryScore::bonus(13);
        assert!(s.0 <= MAX_HIST_SCORE);
    }
}

fn entry(hash: u64, depth: usize, score: i32, node_type: NodeType, age: u8) -> TTEntry {
    TTEntry::new(ZHash(hash), mv(12, 28), score, depth, node_type, age)
}

#[test]
fn table_size_follows_entry_size() {
    let t = TTable::with_capacity(1);
    assert_eq!(t.len(), (1 << 20) / std::mem::size_of::<TTEntry>());
    assert!(t.len() > 0);
    assert_eq!(t.occupied(), 0);
    assert_eq!(t.inserts(), 0);
    assert_eq!(t.get_age(), 0);
}

#[test]
fn probe_gives_back_what_was_inserted() {
    let mut t = TTable::with_capacity(1);
    let e = entry(123_456_789, 5, 42, NodeType::Exact, 0);
    t.insert(e);
    assert_eq!(t.probe(ZHash(123_456_789)), Some(e));
    assert_eq!(t.probe(ZHash(123_456_790)), None);
    assert_eq!(t.occupied(), 1);
    assert_eq!(t.inserts(), 1);
    assert_eq!(t.overwrites(), 0);
}

#[test]
fn replacement_prefers_deeper_entries() {
    let mut t = TTable::with_capacity(1);
    let n = t.len() as u64;
    let deep = entry(7, 6, 10, NodeType::Exact, 0);
    let shallow = entry(7 + n, 3, 20, NodeType::Exact, 0);
    let deeper = entry(7 + 2 * n, 9, 30, NodeType::Lower, 0);
    t.insert(deep);
    t.insert(shallow);
    assert_eq!(t.probe(ZHash(7)), Some(deep));
    assert_eq!(t.probe(ZHash(7 + n)), None);
    assert_eq!(t.inserts(), 1);
    t.insert(deeper);
    assert_eq!(t.probe(ZHash(7)), None);
    assert_eq!(t.probe(ZHash(7 + 2 * n)), Some(deeper));
    assert_eq!(t.inserts(), 2);
    assert_eq!(t.occupied(), 1);
    assert_eq!(t.overwrites(), 1);
}

#[test]
fn older_entries_are_replaced() {
    let mut t = TTable::with_capacity(1);
    t.increment_age();
    assert_eq!(t.get_age(), 1);
    let n = t.len() as u64;
    let old = entry(3, 8, 0, NodeType::Exact, 0);
    t.insert(old);
    let newer = entry(3 + n, 1, 0, NodeType::Exact, 0);
    t.insert(newer);
    assert_eq!(t.probe(ZHash(3)), None);
    assert_eq!(t.probe(ZHash(3 + n)), Some(newer));
}

#[test]
fn slots_are_hashes_modulo_size() {
    assert_eq!(ZKey::from_hash(ZHash(1000), 64), ZKey(1000 % 64));
    assert_eq!(ZKey::from_hash(ZHash(5), 64), ZKey(5));
}

#[test]
fn entries_are_used_by_bound() {
    let m = mv(12, 28);
    assert_eq!(entry(1, 5, 42, NodeType::Exact, 0).try_use(5, -100, 100), Some((m, 42)));
    assert_eq!(entry(1, 4, 42, NodeType::Exact, 0).try_use(5, -100, 100), None);
    assert_eq!(entry(1, 5, -200, NodeType::Upper, 0).try_use(3, -100, 100), Some((m, -100)));
    assert_eq!(entry(1, 5, 0, NodeType::Upper, 0).try_use(3, -100, 100), None);
    assert_eq!(entry(1, 5, 200, NodeType::Lower, 0).try_use(3, -100, 100), Some((m, 100)));
    assert_eq!(entry(1, 5, 0, NodeType::Lower, 0).try_use(3, -100, 100), None);
}

#[test]
fn null_entries_are_empty() {
    let e = TTEntry::null();
    assert!(e.is_empty());
    assert_eq!(e.get_hash(), ZHash::null());
    assert_eq!(e.get_move(), Move::null());
    assert!(!entry(1, 0, 0, NodeType::Exact, 0).is_empty());
    let e = entry(9, 4, -7, NodeType::Upper, 2);
    assert_eq!(e.get_hash(), ZHash(9));
    assert_eq!(e.get_depth(), 4);
    assert_eq!(e.get_score(), -7);
    assert_eq!(e.get_type(), NodeType::Upper);
}

#[test]
fn resizing_keeps_entries() {
    let mut t = TTable::with_capacity(1);
    let e = entry(11, 2, 5, NodeType::Exact, 0);
    t.insert(e);
    t.resize(2);
    assert_eq!(t.len(), (2 << 20) / std::mem::size_of::<TTEntry>());
    assert_eq!(t.probe(ZHash(11)), Some(e));
}

#[test]
fn correction_history_running_average() {
    let mut e = CorrHistEntry(0);
    e.update(100, 50, 3);
    assert_eq!(e, CorrHistEntry(200));
    assert_eq!(e.correct(10), 10);
    assert_eq!(CorrHistEntry(512).correct(10), 12);
    assert_eq!(CorrHistEntry(-512).correct(10), 8);
    assert_eq!(CorrHistEntry(-300).correct(0), -1);

    let mut e = CorrHistEntry(-300);
    e.update(0, 0, 0);
    assert_eq!(e, CorrHistEntry(-298));

    let mut e = CorrHistEntry(0);
    e.update(-1, 0, 0);
    assert_eq!(e, CorrHistEntry(-1));
}

#[test]
fn correction_history_is_clamped() {
    let mut e = CorrHistEntry(0);
    e.update(1000, 0, 20);
    assert_eq!(e, CorrHistEntry(MAX_VALUE));
    let mut e = CorrHistEntry(0);
    e.update(-1000, 0, 20);
    assert_eq!(e, CorrHistEntry(-MAX_VALUE));
}

#[test]
fn correction_history_table() {
    let mut t = CorrHistTable::boxed();
    assert_eq!(*t.get(Color::White, ZHash(5)), CorrHistEntry(0));
    t.update(Color::White, ZHash(5), 100, 50, 3);
    assert_eq!(*t.get(Color::White, ZHash(5)), CorrHistEntry(200));
    assert_eq!(*t.get(Color::White, ZHash(5 + 16_384)), CorrHistEntry(200));
    assert_eq!(*t.get(Color::Black, ZHash(5)), CorrHistEntry(0));
}

#[test]
fn reductions_follow_the_log_formula() {
    for depth in 0..64usize {
        for count in 0..64usize {
            let expected = if depth == 0 || count == 0 {
                0
            } else {
                (0.75f32 + (depth as f32).ln() * (count as f32).ln() / 2.25f32) as usize
            };
            assert_eq!(LMR_TABLE[depth][count], expected, "depth {depth}, move {count}");
        }
    }
}

#[test]
fn reductions_are_capped_at_63() {
    assert_eq!(lmr_reduction(10, 10), LMR_TABLE[10][10]);
    assert_eq!(lmr_reduction(100, 7), LMR_TABLE[63][7]);
    assert_eq!(lmr_reduction(7, 1000), LMR_TABLE[7][63]);
    assert_eq!(lmr_reduction(1, 1), 0);
}

#[test]
fn history_table_scores_by_piece_and_target() {
    let knight = Piece { color: Color::White, piece_type: PieceType::Knight, position: Bitboard(1 << 6) };
    let pawn = Piece { color: Color::Black, piece_type: PieceType::Pawn, position: Bitboard(1 << 52) };
    let mut t = HistoryTable::new();
    let nf3 = mv(6, 21);
    assert_eq!(t.get(&nf3, knight), 0);
    t.set(&nf3, knight, 300);
    assert_eq!(t.get(&nf3, knight), 300);
    assert_eq!(t.get(&nf3, pawn), 0);
    assert_eq!(t.get(&mv(12, 21), knight), 300);
    t.set(&mv(52, 36), pawn, -7);
    t.age_entries();
    assert_eq!(t.get(&nf3, knight), 150);
    assert_eq!(t.get(&mv(52, 36), pawn), -3);

    let board = Board::new();
    let idx = HistoryIndex::new(&board, nf3);
    assert_eq!(idx.square.index(), 21);
    assert_eq!((idx.color, idx.piece_type), (Color::White, PieceType::Knight));
    assert_eq!(t.score(idx), HistoryScore(150));
    t.set_score(idx, t.score(idx) + HistoryScore::bonus(3));
    assert_eq!(t.get(&nf3, knight), 547);
    let d = HistoryIndex::default();
    assert_eq!((d.square.index(), d.color, d.piece_type), (0, Color::White, PieceType::Pawn));
}
