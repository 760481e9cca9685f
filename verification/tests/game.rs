use simbelmyne::bitboard::Bitboard;
use simbelmyne::board::{Board, Color, Piece, PieceType, Square};
use simbelmyne::game::{find_move, Game, SelectError};
use simbelmyne::movegen::moves::Move;

fn sq(name: &str) -> Square {
    Square::from_alg(name).unwrap()
}

fn game() -> Game {
    Game { board: Board::new(), highlights: Bitboard(0) }
}

#[test]
fn selecting_pieces() {
    let g = game();
    assert_eq!(g.try_select(sq("e4")), Err(SelectError::NoPiece(sq("e4"))));
    assert_eq!(g.try_select(sq("e7")), Err(SelectError::OtherPlayer));
    assert_eq!(
        g.try_select(sq("g1")),
        Ok(&Piece { color: Color::White, piece_type: PieceType::Knight, position: Bitboard(1 << 6) })
    );
}

#[test]
fn highlighting_the_moves_of_a_piece() {
    let mut g = game();
    let knight = *g.try_select(sq("g1")).unwrap();
    let moves = vec![
        Move::new(sq("g1"), sq("f3")),
        Move::new(sq("e2"), sq("e4")),
        Move::new(sq("g1"), sq("h3")),
    ];
    g.highlight_moves(&knight, sq("g1"), &moves);
    assert_eq!(g.highlights, Bitboard((1 << 6) | (1 << 21) | (1 << 23)));
    g.clear_highlights();
    assert_eq!(g.highlights, Bitboard(0));
}

#[test]
fn finding_a_move() {
    let moves = vec![
        Move::new(sq("g1"), sq("f3")),
        Move::new(sq("e2"), sq("e4")),
    ];
    assert_eq!(find_move(&moves, sq("e2"), sq("e4")), Some(moves[1]));
    assert_eq!(find_move(&moves, sq("e2"), sq("e3")), None);
    assert_eq!(find_move(&Vec::new(), sq("e2"), sq("e4")), None);
}

#[test]
fn drawing_a_game_without_colour() {
    colored::control::set_override(false);
    let expected = [
        "  a b c d e f g h ",
        "8 r n b q k b n r 8",
        "7 p p p p p p p p 7",
        "6 . . . . . . . . 6",
        "5 . . . . . . . . 5",
        "4 . . . . . . . . 4",
        "3 . . . . . . . . 3",
        "2 P P P P P P P P 2",
        "1 R N B Q K B N R 1",
        "  a b c d e f g h ",
        "",
    ]
    .join("\n");
    assert_eq!(game().to_string(), expected);
    colored::control::unset_override();
}

#[test]
fn drawing_a_game_with_highlights() {
    colored::control::set_override(true);
    let mut g = game();
    g.highlights = Bitboard(1 << 6);
    let text = g.to_string();
    let lines: Vec<&str> = text.split('\n').collect();
    assert_eq!(lines[0], "\x1b[94m  a b c d e f g h ");
    assert_eq!(lines[1], "\x1b[0m\x1b[94m8\x1b[0m \x1b[90mr\x1b[0m \x1b[90mn\x1b[0m \x1b[90mb\x1b[0m \x1b[90mq\x1b[0m \x1b[90mk\x1b[0m \x1b[90mb\x1b[0m \x1b[90mn\x1b[0m \x1b[90mr\x1b[0m \x1b[94m8\x1b[0m");
    assert!(lines[8].contains(" N "));
    assert!(lines[8].contains("\x1b[90mB\x1b[0m N \x1b[90mR\x1b[0m"));
    colored::control::unset_override();
}

#[test]
fn drawing_a_bitboard() {
    colored::control::set_override(false);
    let text = Bitboard((1 << 63) | 1).to_string();
    let mut expected = String::from(". . . . . . . x \n");
    for _ in 0..6 {
        expected.push_str(". . . . . . . . \n");
    }
    expected.push_str("x . . . . . . . \n");
    assert_eq!(text, expected);
    colored::control::set_override(true);
    assert!(Bitboard(1).to_string().starts_with("\x1b[90m. \x1b[0m"));
    colored::control::unset_override();
}
