use simbelmyne::board::{Color, PieceType};
use simbelmyne::fen::FENAtom;
use simbelmyne::parse::{
    algebraic_file, algebraic_piece, algebraic_rank, algebraic_square, fen_board, fen_rank,
    ErrorKind, ParseError,
};

#[test]
fn algebraic_piece_white_king() {
    let result = algebraic_piece("King");
    assert_eq!(result, Ok(("ing", (Color::White, PieceType::King))));
}

#[test]
fn algebraic_piece_black_knight() {
    let result = algebraic_piece("night");
    assert_eq!(result, Ok(("ight", (Color::Black, PieceType::Knight))));
}

#[test]
fn algebraic_piece_white_queen() {
    let result = algebraic_piece("Quick");
    assert_eq!(result, Ok(("uick", (Color::White, PieceType::Queen))));
}

#[test]
fn algebraic_piece_fail() {
    let result = algebraic_piece("Hello");
    assert_eq!(result, Err(ParseError { input: "Hello", code: ErrorKind::Fail }));
}

#[test]
fn algebraic_rank_works() {
    assert_eq!(algebraic_rank("7"), Ok(("", 6)));
}

#[test]
fn algebraic_rank_no_alpha() {
    assert_eq!(algebraic_rank("a"), Err(ParseError { input: "a", code: ErrorKind::Digit }));
}

#[test]
fn algebraic_rank_bounds() {
    assert_eq!(algebraic_rank("9"), Err(ParseError { input: "9", code: ErrorKind::Fail }));
}

#[test]
fn algebraic_rank_multiple_digits() {
    assert_eq!(algebraic_rank("10"), Err(ParseError { input: "10", code: ErrorKind::Fail }));
}

#[test]
fn algebraic_file_works() {
    assert_eq!(algebraic_file("c"), Ok(("", 2)));
    assert!(algebraic_file("x").is_err());
}

#[test]
fn algebraic_square_e4() {
    assert_eq!(algebraic_square("e4"), Ok(("", (4, 3))));
}

#[test]
fn algebraic_square_e10() {
    assert!(algebraic_square("e10").is_err());
}

#[test]
fn test_fen_rank() {
    assert_eq!(
        fen_rank("Kn4QS"),
        Ok((
            "S",
            vec![
                FENAtom::Piece(Color::White, PieceType::King),
                FENAtom::Piece(Color::Black, PieceType::Knight),
                FENAtom::Gap(4),
                FENAtom::Piece(Color::White, PieceType::Queen),
            ]
        ))
    )
}

#[test]
fn test_fen_board() {
    assert_eq!(
        fen_board("Kn4Q/pppppppp/8/8/8/8/pppppppp and some other stuff"),
        Ok((
            " and some other stuff",
            vec![
                vec![
                    FENAtom::Piece(Color::White, PieceType::King),
                    FENAtom::Piece(Color::Black, PieceType::Knight),
                    FENAtom::Gap(4),
                    FENAtom::Piece(Color::White, PieceType::Queen),
                ],
                vec![FENAtom::Piece(Color::Black, PieceType::Pawn); 8],
                vec![FENAtom::Gap(8)],
                vec![FENAtom::Gap(8)],
                vec![FENAtom::Gap(8)],
                vec![FENAtom::Gap(8)],
                vec![FENAtom::Piece(Color::Black, PieceType::Pawn); 8],
            ]
        ))
    )
}
