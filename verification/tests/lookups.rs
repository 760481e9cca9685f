use simbelmyne::bitboard::Bitboard;
use simbelmyne::board::{Color, Square};
use simbelmyne::evaluate::pretty_print::blank_line;
use simbelmyne::evaluate::lookups::{
    gen_doubled_pawn_masks, gen_files, gen_isolated_pawn_masks, gen_passed_pawn_masks,
};

#[test]
fn passed_pawn_masks() {
    let masks = gen_passed_pawn_masks();
    let e4 = Square::from_alg("e4").unwrap().index();
    let e5 = Square::from_alg("e5").unwrap().index();

    assert_eq!(masks[Color::White.index()][e4], Bitboard(0x3838383800000000));
    assert_eq!(masks[Color::Black.index()][e5], Bitboard(0x38383838));
}

#[test]
fn isolated_pawn_masks() {
    let masks = gen_isolated_pawn_masks();
    let a6 = Square::from_alg("a6").unwrap().index();
    let e4 = Square::from_alg("e4").unwrap().index();

    assert_eq!(masks[a6], Bitboard(0x202020202020202));
    assert_eq!(masks[e4], Bitboard(0x2828282828282828));
}

#[test]
fn passed_pawn_masks_at_the_edges() {
    let masks = gen_passed_pawn_masks();
    // A pawn on the last rank has nothing ahead of it.
    assert_eq!(masks[0][60], Bitboard(0));
    assert_eq!(masks[1][3], Bitboard(0));
    // The a-file has only one neighbouring file.
    assert_eq!(masks[0][48], Bitboard(0x0300000000000000));
    assert_eq!(masks[1][15], Bitboard(0x00000000000000C0));
}

#[test]
fn file_masks() {
    let files = gen_files();
    assert_eq!(files[0], Bitboard(0x0101010101010101));
    assert_eq!(files[63], Bitboard(0x8080808080808080));
    assert_eq!(files[28], Bitboard(0x1010101010101010));
    let by_file = gen_doubled_pawn_masks();
    for f in 0..8 {
        assert_eq!(by_file[f], files[f]);
    }
}

/// The text with the terminal's colour sequences taken out.
fn without_escapes(s: &str) -> String {
    let mut out = String::new();
    let mut chars = s.chars();
    while let Some(c) = chars.next() {
        if c == '\x1b' {
            for d in chars.by_ref() {
                if d == 'm' {
                    break;
                }
            }
        } else {
            out.push(c);
        }
    }
    out
}

#[test]
fn blank_lines_of_the_board_drawing() {
    let plain = format!("  ║{}║ ", " ".repeat(56));
    for rank in 0..8 {
        let line = blank_line(rank);
        assert_eq!(without_escapes(&line), plain);
        assert!(line == plain || line.contains("\x1b["));
    }
    let even = blank_line(0);
    let odd = blank_line(1);
    if even.contains("\x1b[") {
        assert!(even.starts_with("  ║\x1b[47m"));
        assert!(odd.starts_with("  ║\x1b[40m"));
    }
}

#[test]
fn blank_lines_in_colour_and_without() {
    colored::control::set_override(true);
    let cells = ["\x1b[47m       \x1b[0m", "\x1b[40m       \x1b[0m"].concat().repeat(4);
    assert_eq!(blank_line(2), format!("  ║{cells}║ "));
    let cells = ["\x1b[40m       \x1b[0m", "\x1b[47m       \x1b[0m"].concat().repeat(4);
    assert_eq!(blank_line(7), format!("  ║{cells}║ "));
    colored::control::set_override(false);
    assert_eq!(blank_line(1), format!("  ║{}║ ", " ".repeat(56)));
    colored::control::unset_override();
}
