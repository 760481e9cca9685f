//! Squares, colors and piece types: the vocabulary shared by the rest of the
//! board representation.
use vstd::prelude::*;
use vstd::string::*;
use crate::bitboard::{Bitboard, Step, bit, tz, ray, has_bit, is_single, lemma_or_assoc, lemma_bit_square, lemma_bits_or, lemma_has_bit_bit, lemma_zero_bits};
use crate::movegen::castling::{CastlingRights, rights_of_chars};
use crate::fen::{FEN, FENAtom};
use crate::parse::spec_fen_board;
use crate::text::{fields, parse_u8_spec, parse_u8, split_fields, lemma_fields_nonempty};

verus! {

/// The two sides of a chess game.
#[derive(Debug, PartialEq, Eq, Structural, Clone, Copy)]
pub enum Color {
    White,
    Black,
}

impl Color {
    pub const COUNT: usize = 2;

    /// The index of the side, as used for indexing per-side tables.
    pub open spec fn idx(self) -> int {
        match self {
            Color::White => 0,
            Color::Black => 1,
        }
    }

    pub open spec fn spec_opp(self) -> Color {
        match self {
            Color::White => Color::Black,
            Color::Black => Color::White,
        }
    }

    /// The index of the side as a `usize` (White is 0, Black is 1).
    pub fn index(self) -> (r: usize)
        ensures
            r == self.idx(),
    {
        match self {
            Color::White => 0,
            Color::Black => 1,
        }
    }

    /// The opposing side.
    pub fn opp(&self) -> (r: Color)
        ensures
            r == self.spec_opp(),
    {
        match self {
            Color::White => Color::Black,
            Color::Black => Color::White,
        }
    }

    pub fn is_white(&self) -> (r: bool)
        ensures
            r == (*self == Color::White),
    {
        match self {
            Color::White => true,
            Color::Black => false,
        }
    }

    pub fn is_black(&self) -> (r: bool)
        ensures
            r == (*self == Color::Black),
    {
        match self {
            Color::White => false,
            Color::Black => true,
        }
    }
}

/// The six kinds of chess pieces, in the order used to index per-type tables.
#[derive(Debug, PartialEq, Eq, Structural, Clone, Copy)]
pub enum PieceType {
    Pawn,
    Knight,
    Bishop,
    Rook,
    Queen,
    King,
}

impl PieceType {
    pub const COUNT: usize = 6;

    /// The index of the piece type (Pawn 0, Knight 1, Bishop 2, Rook 3,
    /// Queen 4, King 5).
    pub open spec fn idx(self) -> int {
        match self {
            PieceType::Pawn => 0,
            PieceType::Knight => 1,
            PieceType::Bishop => 2,
            PieceType::Rook => 3,
            PieceType::Queen => 4,
            PieceType::King => 5,
        }
    }

    pub fn index(self) -> (r: usize)
        ensures
            r == self.idx(),
    {
        match self {
            PieceType::Pawn => 0,
            PieceType::Knight => 1,
            PieceType::Bishop => 2,
            PieceType::Rook => 3,
            PieceType::Queen => 4,
            PieceType::King => 5,
        }
    }

    pub fn is_pawn(&self) -> (r: bool)
        ensures
            r == (*self == PieceType::Pawn),
    {
        *self == PieceType::Pawn
    }

    pub fn is_rook(&self) -> (r: bool)
        ensures
            r == (*self == PieceType::Rook),
    {
        *self == PieceType::Rook
    }

    pub fn is_knight(&self) -> (r: bool)
        ensures
            r == (*self == PieceType::Knight),
    {
        *self == PieceType::Knight
    }

    pub fn is_bishop(&self) -> (r: bool)
        ensures
            r == (*self == PieceType::Bishop),
    {
        *self == PieceType::Bishop
    }

    pub fn is_queen(&self) -> (r: bool)
        ensures
            r == (*self == PieceType::Queen),
    {
        *self == PieceType::Queen
    }

    pub fn is_king(&self) -> (r: bool)
        ensures
            r == (*self == PieceType::King),
    {
        *self == PieceType::King
    }
}

/// The 64 squares of the board, ordered rank by rank from a1 (index 0) to h8
/// (index 63).
#[derive(Debug, PartialEq, Eq, Structural, Clone, Copy)]
pub enum Square {
    A1, B1, C1, D1, E1, F1, G1, H1,
    A2, B2, C2, D2, E2, F2, G2, H2,
    A3, B3, C3, D3, E3, F3, G3, H3,
    A4, B4, C4, D4, E4, F4, G4, H4,
    A5, B5, C5, D5, E5, F5, G5, H5,
    A6, B6, C6, D6, E6, F6, G6, H6,
    A7, B7, C7, D7, E7, F7, G7, H7,
    A8, B8, C8, D8, E8, F8, G8, H8,
}

/// The character naming the file of a square index (`a` to `h`).
pub open spec fn file_char(file: int) -> char {
    (97 + file) as char
}

/// The character naming the rank of a square index (`1` to `8`).
pub open spec fn rank_char(rank: int) -> char {
    (49 + rank) as char
}

impl Square {
    pub const COUNT: usize = 64;
    pub const W_PAWN_RANK: usize = 1;
    pub const B_PAWN_RANK: usize = 6;
    pub const W_DPUSH_RANK: usize = 3;
    pub const B_DPUSH_RANK: usize = 4;

    /// The index of the square, between 0 and 63.
    pub open spec fn idx(self) -> int {
        self as int
    }

    pub open spec fn spec_rank(self) -> int {
        self.idx() / 8
    }

    pub open spec fn spec_file(self) -> int {
        self.idx() % 8
    }

    /// The algebraic name of the square, such as `e4`.
    pub open spec fn alg_name(self) -> Seq<char> {
        seq![file_char(self.spec_file()), rank_char(self.spec_rank())]
    }

    /// The square whose index is `i`.
    pub fn from_index(i: usize) -> (r: Square)
        requires
            i < 64,
        ensures
            r.idx() == i,
    {
        match i {
            0 => Square::A1,
            1 => Square::B1,
            2 => Square::C1,
            3 => Square::D1,
            4 => Square::E1,
            5 => Square::F1,
            6 => Square::G1,
            7 => Square::H1,
            8 => Square::A2,
            9 => Square::B2,
            10 => Square::C2,
            11 => Square::D2,
            12 => Square::E2,
            13 => Square::F2,
            14 => Square::G2,
            15 => Square::H2,
            16 => Square::A3,
            17 => Square::B3,
            18 => Square::C3,
            19 => Square::D3,
            20 => Square::E3,
            21 => Square::F3,
            22 => Square::G3,
            23 => Square::H3,
            24 => Square::A4,
            25 => Square::B4,
            26 => Square::C4,
            27 => Square::D4,
            28 => Square::E4,
            29 => Square::F4,
            30 => Square::G4,
            31 => Square::H4,
            32 => Square::A5,
            33 => Square::B5,
            34 => Square::C5,
            35 => Square::D5,
            36 => Square::E5,
            37 => Square::F5,
            38 => Square::G5,
            39 => Square::H5,
            40 => Square::A6,
            41 => Square::B6,
            42 => Square::C6,
            43 => Square::D6,
            44 => Square::E6,
            45 => Square::F6,
            46 => Square::G6,
            47 => Square::H6,
            48 => Square::A7,
            49 => Square::B7,
            50 => Square::C7,
            51 => Square::D7,
            52 => Square::E7,
            53 => Square::F7,
            54 => Square::G7,
            55 => Square::H7,
            56 => Square::A8,
            57 => Square::B8,
            58 => Square::C8,
            59 => Square::D8,
            60 => Square::E8,
            61 => Square::F8,
            62 => Square::G8,
            63 => Square::H8,
            _ => Square::H8,
        }
    }

    /// The index of the square.
    pub fn index(self) -> (r: usize)
        ensures
            r == self.idx(),
            r < 64,
    {
        self as usize
    }

    /// The square on the given rank and file (both counted from 0).
    pub fn new(rank: usize, file: usize) -> (r: Square)
        requires
            rank * 8 + file < 64,
        ensures
            r.idx() == rank * 8 + file,
    {
        Square::from_index(rank * 8 + file)
    }

    /// The square on the given rank and file, or `None` when either lies off
    /// the board.
    pub fn try_new(rank: usize, file: usize) -> (r: Option<Square>)
        ensures
            (rank <= 7 && file <= 7) ==> (r matches Some(sq) && sq.idx() == rank * 8 + file),
            !(rank <= 7 && file <= 7) ==> r is None,
    {
        if rank <= 7 && file <= 7 {
            Some(Square::new(rank, file))
        } else {
            None
        }
    }

    /// The algebraic name of the square, such as `e4`.
    pub fn to_alg(&self) -> (r: &'static str)
        ensures
            r@ == self.alg_name(),
    {
        match *self {
            Square::A1 => {
                proof { reveal_strlit("a1"); }
                "a1"
            },
            Square::B1 => {
                proof { reveal_strlit("b1"); }
                "b1"
            },
            Square::C1 => {
                proof { reveal_strlit("c1"); }
                "c1"
            },
            Square::D1 => {
                proof { reveal_strlit("d1"); }
                "d1"
            },
            Square::E1 => {
                proof { reveal_strlit("e1"); }
                "e1"
            },
            Square::F1 => {
                proof { reveal_strlit("f1"); }
                "f1"
            },
            Square::G1 => {
                proof { reveal_strlit("g1"); }
                "g1"
            },
            Square::H1 => {
                proof { reveal_strlit("h1"); }
                "h1"
            },
            Square::A2 => {
                proof { reveal_strlit("a2"); }
                "a2"
            },
            Square::B2 => {
                proof { reveal_strlit("b2"); }
                "b2"
            },
            Square::C2 => {
                proof { reveal_strlit("c2"); }
                "c2"
            },
            Square::D2 => {
                proof { reveal_strlit("d2"); }
                "d2"
            },
            Square::E2 => {
                proof { reveal_strlit("e2"); }
                "e2"
            },
            Square::F2 => {
                proof { reveal_strlit("f2"); }
                "f2"
            },
            Square::G2 => {
                proof { reveal_strlit("g2"); }
                "g2"
            },
            Square::H2 => {
                proof { reveal_strlit("h2"); }
                "h2"
            },
            Square::A3 => {
                proof { reveal_strlit("a3"); }
                "a3"
            },
            Square::B3 => {
                proof { reveal_strlit("b3"); }
                "b3"
            },
            Square::C3 => {
                proof { reveal_strlit("c3"); }
                "c3"
            },
            Square::D3 => {
                proof { reveal_strlit("d3"); }
                "d3"
            },
            Square::E3 => {
                proof { reveal_strlit("e3"); }
                "e3"
            },
            Square::F3 => {
                proof { reveal_strlit("f3"); }
                "f3"
            },
            Square::G3 => {
                proof { reveal_strlit("g3"); }
                "g3"
            },
            Square::H3 => {
                proof { reveal_strlit("h3"); }
                "h3"
            },
            Square::A4 => {
                proof { reveal_strlit("a4"); }
                "a4"
            },
            Square::B4 => {
                proof { reveal_strlit("b4"); }
                "b4"
            },
            Square::C4 => {
                proof { reveal_strlit("c4"); }
                "c4"
            },
            Square::D4 => {
                proof { reveal_strlit("d4"); }
                "d4"
            },
            Square::E4 => {
                proof { reveal_strlit("e4"); }
                "e4"
            },
            Square::F4 => {
                proof { reveal_strlit("f4"); }
                "f4"
            },
            Square::G4 => {
                proof { reveal_strlit("g4"); }
                "g4"
            },
            Square::H4 => {
                proof { reveal_strlit("h4"); }
                "h4"
            },
            Square::A5 => {
                proof { reveal_strlit("a5"); }
                "a5"
            },
            Square::B5 => {
                proof { reveal_strlit("b5"); }
                "b5"
            },
            Square::C5 => {
                proof { reveal_strlit("c5"); }
                "c5"
            },
            Square::D5 => {
                proof { reveal_strlit("d5"); }
                "d5"
            },
            Square::E5 => {
                proof { reveal_strlit("e5"); }
                "e5"
            },
            Square::F5 => {
                proof { reveal_strlit("f5"); }
                "f5"
            },
            Square::G5 => {
                proof { reveal_strlit("g5"); }
                "g5"
            },
            Square::H5 => {
                proof { reveal_strlit("h5"); }
                "h5"
            },
            Square::A6 => {
                proof { reveal_strlit("a6"); }
                "a6"
            },
            Square::B6 => {
                proof { reveal_strlit("b6"); }
                "b6"
            },
            Square::C6 => {
                proof { reveal_strlit("c6"); }
                "c6"
            },
            Square::D6 => {
                proof { reveal_strlit("d6"); }
                "d6"
            },
            Square::E6 => {
                proof { reveal_strlit("e6"); }
                "e6"
            },
            Square::F6 => {
                proof { reveal_strlit("f6"); }
                "f6"
            },
            Square::G6 => {
                proof { reveal_strlit("g6"); }
                "g6"
            },
            Square::H6 => {
                proof { reveal_strlit("h6"); }
                "h6"
            },
            Square::A7 => {
                proof { reveal_strlit("a7"); }
                "a7"
            },
            Square::B7 => {
                proof { reveal_strlit("b7"); }
                "b7"
            },
            Square::C7 => {
                proof { reveal_strlit("c7"); }
                "c7"
            },
            Square::D7 => {
                proof { reveal_strlit("d7"); }
                "d7"
            },
            Square::E7 => {
                proof { reveal_strlit("e7"); }
                "e7"
            },
            Square::F7 => {
                proof { reveal_strlit("f7"); }
                "f7"
            },
            Square::G7 => {
                proof { reveal_strlit("g7"); }
                "g7"
            },
            Square::H7 => {
                proof { reveal_strlit("h7"); }
                "h7"
            },
            Square::A8 => {
                proof { reveal_strlit("a8"); }
                "a8"
            },
            Square::B8 => {
                proof { reveal_strlit("b8"); }
                "b8"
            },
            Square::C8 => {
                proof { reveal_strlit("c8"); }
                "c8"
            },
            Square::D8 => {
                proof { reveal_strlit("d8"); }
                "d8"
            },
            Square::E8 => {
                proof { reveal_strlit("e8"); }
                "e8"
            },
            Square::F8 => {
                proof { reveal_strlit("f8"); }
                "f8"
            },
            Square::G8 => {
                proof { reveal_strlit("g8"); }
                "g8"
            },
            Square::H8 => {
                proof { reveal_strlit("h8"); }
                "h8"
            },
        }
    }

    /// The rank of the square, from 0 (rank 1) to 7 (rank 8).
    pub fn rank(&self) -> (r: usize)
        ensures
            r == self.spec_rank(),
            r < 8,
    {
        self.index() / 8
    }

    /// The file of the square, from 0 (file a) to 7 (file h).
    pub fn file(&self) -> (r: usize)
        ensures
            r == self.spec_file(),
            r < 8,
    {
        self.index() % 8
    }

    /// The index of the square one rank towards the opponent of `side`, if it
    /// lies on the board.
    pub open spec fn forward_index(self, side: Color) -> Option<int> {
        match side {
            Color::White => if self.spec_rank() < 7 { Some(self.idx() + 8) } else { None },
            Color::Black => if self.spec_rank() > 0 { Some(self.idx() - 8) } else { None },
        }
    }

    /// The square one rank towards the opponent of `side`, or `None` when
    /// White is on the last rank.
    ///
    /// The rank is decremented for Black, so Black on the first rank is out of
    /// this function's domain.
    pub fn forward(&self, side: Color) -> (r: Option<Square>)
        requires
            side == Color::Black ==> self.spec_rank() >= 1,
        ensures
            match self.forward_index(side) {
                Some(j) => r matches Some(sq) && sq.idx() == j,
                None => r is None,
            },
    {
        if side.is_white() {
            Square::try_new(self.rank() + 1, self.file())
        } else {
            Square::try_new(self.rank() - 1, self.file())
        }
    }

    /// The square one rank back towards `side`'s own first rank.
    pub fn backward(&self, side: Color) -> (r: Option<Square>)
        requires
            side == Color::White ==> self.spec_rank() >= 1,
        ensures
            match self.forward_index(side.spec_opp()) {
                Some(j) => r matches Some(sq) && sq.idx() == j,
                None => r is None,
            },
    {
        self.forward(side.opp())
    }

    /// Whether a pawn move from `source` to `target` is a double push: two
    /// ranks forward from its starting rank, on the same file.
    pub open spec fn spec_is_double_push(source: Square, target: Square) -> bool {
        (source.spec_rank() == 1 && target.spec_rank() == 3
            || source.spec_rank() == 6 && target.spec_rank() == 4)
            && source.spec_file() == target.spec_file()
    }

    pub fn is_double_push(source: Square, target: Square) -> (r: bool)
        ensures
            r == Square::spec_is_double_push(source, target),
    {
        (source.rank() == Self::W_PAWN_RANK && target.rank() == Self::W_DPUSH_RANK
            || source.rank() == Self::B_PAWN_RANK && target.rank() == Self::B_DPUSH_RANK)
            && source.file() == target.file()
    }

    /// Two squares with the same index are the same square.
    pub proof fn lemma_idx_injective(a: Square, b: Square)
        requires
            a.idx() == b.idx(),
        ensures
            a == b,
    {
    }
}

/// The lower-case form of an ASCII letter; other characters are unchanged.
pub open spec fn ascii_lower(c: char) -> char {
    if 'A' <= c && c <= 'Z' {
        ((c as int) + 32) as char
    } else {
        c
    }
}

/// The index of the square named by `s`, read without regard to case
/// (`e4`, `E4`).
pub open spec fn square_index_of_name(s: Seq<char>) -> Option<int> {
    if s.len() == 2 && 'a' <= ascii_lower(s[0]) && ascii_lower(s[0]) <= 'h' && '1' <= s[1]
        && s[1] <= '8' {
        Some((s[1] as int - 49) * 8 + (ascii_lower(s[0]) as int - 97))
    } else {
        None
    }
}

/// The error returned when a string names no square.
#[derive(Debug, PartialEq, Eq, Structural, Clone, Copy)]
pub struct InvalidSquare;

/// The error returned when a string names no side.
#[derive(Debug, PartialEq, Eq, Structural, Clone, Copy)]
pub struct InvalidColor;

impl Square {
    /// The square named by `s` in algebraic notation, in either case.
    pub fn from_alg(s: &str) -> (r: Result<Square, InvalidSquare>)
        ensures
            match square_index_of_name(s@) {
                Some(i) => r matches Ok(sq) && sq.idx() == i,
                None => r is Err,
            },
    {
        let n = s.unicode_len();
        if n != 2 {
            return Err(InvalidSquare);
        }
        let c0 = s.get_char(0);
        let c1 = s.get_char(1);
        let f = if 'A' <= c0 && c0 <= 'Z' {
            ((c0 as u32) + 32) as u32
        } else {
            c0 as u32
        };
        let rk = c1 as u32;
        if 97 <= f && f <= 104 && 49 <= rk && rk <= 56 {
            Ok(Square::new((rk - 49) as usize, (f - 97) as usize))
        } else {
            Err(InvalidSquare)
        }
    }
}

/// Whether `s` spells the same characters as `word`.
pub fn same_chars(s: &str, word: &str) -> (r: bool)
    ensures
        r == (s@ == word@),
{
    let n = s.unicode_len();
    let m = word.unicode_len();
    if n != m {
        return false;
    }
    let mut i: usize = 0;
    while i < n
        invariant
            n == s@.len(),
            m == word@.len(),
            n == m,
            i <= n,
            forall|j: int| 0 <= j < i ==> s@[j] == word@[j],
        decreases n - i,
    {
        if s.get_char(i) != word.get_char(i) {
            return false;
        }
        i = i + 1;
    }
    assert(s@ =~= word@);
    true
}

/// The side named by `s`: `w`, `W`, `white` or `White` for White, and
/// `b`, `B`, `black` or `Black` for Black.
pub open spec fn color_of_name(s: Seq<char>) -> Option<Color> {
    if s == seq!['w'] || s == seq!['W'] || s == seq!['w', 'h', 'i', 't', 'e'] || s == seq![
        'W',
        'h',
        'i',
        't',
        'e',
    ] {
        Some(Color::White)
    } else if s == seq!['b'] || s == seq!['B'] || s == seq!['b', 'l', 'a', 'c', 'k'] || s
        == seq!['B', 'l', 'a', 'c', 'k'] {
        Some(Color::Black)
    } else {
        None
    }
}

impl Color {
    /// The side named by `s`.
    pub fn from_name(s: &str) -> (r: Result<Color, InvalidColor>)
        ensures
            match color_of_name(s@) {
                Some(c) => r == Ok::<Color, InvalidColor>(c),
                None => r is Err,
            },
    {
        proof {
            reveal_strlit("w");
            reveal_strlit("W");
            reveal_strlit("white");
            reveal_strlit("White");
            reveal_strlit("b");
            reveal_strlit("B");
            reveal_strlit("black");
            reveal_strlit("Black");
            assert("w"@ =~= seq!['w']);
            assert("W"@ =~= seq!['W']);
            assert("white"@ =~= seq!['w', 'h', 'i', 't', 'e']);
            assert("White"@ =~= seq!['W', 'h', 'i', 't', 'e']);
            assert("b"@ =~= seq!['b']);
            assert("B"@ =~= seq!['B']);
            assert("black"@ =~= seq!['b', 'l', 'a', 'c', 'k']);
            assert("Black"@ =~= seq!['B', 'l', 'a', 'c', 'k']);
        }
        if same_chars(s, "w") || same_chars(s, "W") || same_chars(s, "white") || same_chars(
            s,
            "White",
        ) {
            Ok(Color::White)
        } else if same_chars(s, "b") || same_chars(s, "B") || same_chars(s, "black")
            || same_chars(s, "Black") {
            Ok(Color::Black)
        } else {
            Err(InvalidColor)
        }
    }
}


/// A piece on the board: its side, its type, and the bitboard of the square
/// it stands on.
#[derive(Debug, PartialEq, Eq, Structural, Clone, Copy)]
pub struct Piece {
    pub color: Color,
    pub piece_type: PieceType,
    pub position: Bitboard,
}

impl Piece {
    pub fn color(&self) -> (r: Color)
        ensures
            r == self.color,
    {
        self.color
    }

    pub fn piece_type(&self) -> (r: PieceType)
        ensures
            r == self.piece_type,
    {
        self.piece_type
    }

    pub fn is_pawn(&self) -> (r: bool)
        ensures
            r == (self.piece_type == PieceType::Pawn),
    {
        self.piece_type() == PieceType::Pawn
    }

    pub fn is_rook(&self) -> (r: bool)
        ensures
            r == (self.piece_type == PieceType::Rook),
    {
        self.piece_type() == PieceType::Rook
    }

    pub fn is_knight(&self) -> (r: bool)
        ensures
            r == (self.piece_type == PieceType::Knight),
    {
        self.piece_type() == PieceType::Knight
    }

    pub fn is_bishop(&self) -> (r: bool)
        ensures
            r == (self.piece_type == PieceType::Bishop),
    {
        self.piece_type() == PieceType::Bishop
    }

    pub fn is_queen(&self) -> (r: bool)
        ensures
            r == (self.piece_type == PieceType::Queen),
    {
        self.piece_type() == PieceType::Queen
    }

    pub fn is_king(&self) -> (r: bool)
        ensures
            r == (self.piece_type == PieceType::King),
    {
        self.piece_type() == PieceType::King
    }
}


/// The union of what the pieces of `side` among the first `n` entries of
/// `list` attack, given the occupancies `ours` and `theirs` they are looked
/// at with.
pub open spec fn attack_union(list: Seq<Option<Piece>>, side: Color, ours: u64, theirs: u64, n: int) -> u64
    decreases n,
{
    if n <= 0 {
        0u64
    } else {
        let prev = attack_union(list, side, ours, theirs, n - 1);
        match list[n - 1] {
            Some(p) => if p.color == side {
                prev | p.spec_attacks(ours, theirs)
            } else {
                prev
            },
            None => prev,
        }
    }
}

/// The union of the positions of the pieces of `side` among the first `n`
/// entries of `list` that see all of `target`.
pub open spec fn checkers_union(
    list: Seq<Option<Piece>>,
    side: Color,
    ours: u64,
    theirs: u64,
    target: u64,
    n: int,
) -> u64
    decreases n,
{
    if n <= 0 {
        0u64
    } else {
        let prev = checkers_union(list, side, ours, theirs, target, n - 1);
        match list[n - 1] {
            Some(p) => if p.color == side && p.spec_visible(ours, theirs) & target == target {
                prev | p.position.0
            } else {
                prev
            },
            None => prev,
        }
    }
}

/// The rays from square index `king` along each of `dirs` that reach one of
/// `sliders` and hold exactly one square of `own`, in the order of `dirs`.
pub open spec fn pin_rays(king: int, dirs: Seq<Step>, blockers: u64, sliders: u64, own: u64) -> Seq<u64>
    decreases dirs.len(),
{
    if dirs.len() == 0 {
        Seq::<u64>::empty()
    } else {
        let prev = pin_rays(king, dirs.drop_last(), blockers, sliders, own);
        let r = ray(king, dirs.last().delta_rank as int, dirs.last().delta_file as int, 7, blockers);
        if r & sliders != 0 && is_single(r & own) {
            prev.push(r)
        } else {
            prev
        }
    }
}

/// Whether one of the rays from square index `king` along `dirs` reaches one
/// of `sliders`.
pub open spec fn any_ray_hits(king: int, dirs: Seq<Step>, blockers: u64, sliders: u64) -> bool {
    exists|i: int|
        0 <= i < dirs.len() && #[trigger] ray(
            king,
            dirs[i].delta_rank as int,
            dirs[i].delta_file as int,
            7,
            blockers,
        ) & sliders != 0
}

/// The state of a game: where the pieces stand, who is to move, and the
/// castling, en-passant and move-counter state.
#[derive(Debug, Copy, Clone)]
pub struct Board {
    pub current: Color,
    /// Squares occupied by a given piece type
    pub piece_bbs: [Bitboard; 6],
    /// Squares occupied _by_ a given side
    pub occupied_squares: [Bitboard; 2],
    /// List of pieces, indexable by a Square, more efficient for lookups than `pieces`
    pub piece_list: [Option<Piece>; 64],
    /// Keeps track of what types of castling are still allowed
    pub castling_rights: CastlingRights,
    /// The last half-turn's en-passant square, if there was a double push
    pub en_passant: Option<Square>,
    /// The number of plys since the last capture or pawn advance
    /// Useful for enforcing the 50-move draw rule
    pub half_moves: u8,
    /// The number of full turns
    /// Starts at one, and is incremented after every Black move
    pub full_moves: u8,
}


/// Whether `after` is `before` with `piece` put on `square`: listed there,
/// and the square's bit set in the bitboards of its side and type; the rest
/// of the state is kept.
pub open spec fn placed(before: Board, square: Square, piece: Piece, after: Board) -> bool {
    &&& after.piece_list@ == before.piece_list@.update(square.idx(), Some(piece))
    &&& after.occupied_squares@ == before.occupied_squares@.update(
        piece.color.idx(),
        Bitboard(before.occupied_squares@[piece.color.idx()].0 | bit(square.idx())),
    )
    &&& after.piece_bbs@ == before.piece_bbs@.update(
        piece.piece_type.idx(),
        Bitboard(before.piece_bbs@[piece.piece_type.idx()].0 | bit(square.idx())),
    )
    &&& after.current == before.current
    &&& after.castling_rights == before.castling_rights
    &&& after.en_passant == before.en_passant
    &&& after.half_moves == before.half_moves
    &&& after.full_moves == before.full_moves
}

/// Whether `after` is `before` with `piece` taken off `square`: no longer
/// listed there, and the square's bit flipped in the bitboards of its side
/// and type; the rest of the state is kept.
pub open spec fn lifted(before: Board, square: Square, piece: Piece, after: Board) -> bool {
    &&& after.piece_list@ == before.piece_list@.update(square.idx(), None)
    &&& after.occupied_squares@ == before.occupied_squares@.update(
        piece.color.idx(),
        Bitboard(before.occupied_squares@[piece.color.idx()].0 ^ bit(square.idx())),
    )
    &&& after.piece_bbs@ == before.piece_bbs@.update(
        piece.piece_type.idx(),
        Bitboard(before.piece_bbs@[piece.piece_type.idx()].0 ^ bit(square.idx())),
    )
    &&& after.current == before.current
    &&& after.castling_rights == before.castling_rights
    &&& after.en_passant == before.en_passant
    &&& after.half_moves == before.half_moves
    &&& after.full_moves == before.full_moves
}

/// Taking off a piece just put on an empty square gives the piece back and
/// restores the board, as long as the square's bit was clear in the
/// bitboards of the piece's side and type.
pub proof fn lemma_remove_undoes_add(before: Board, square: Square, piece: Piece, mid: Board, after: Board)
    requires
        before.piece_list@[square.idx()] is None,
        !has_bit(before.occupied_squares@[piece.color.idx()].0, square.idx()),
        !has_bit(before.piece_bbs@[piece.piece_type.idx()].0, square.idx()),
        placed(before, square, piece, mid),
        lifted(mid, square, piece, after),
    ensures
        mid.piece_list@[square.idx()] == Some(piece),
        after.piece_list@ == before.piece_list@,
        after.occupied_squares@ == before.occupied_squares@,
        after.piece_bbs@ == before.piece_bbs@,
        after.current == before.current,
        after.castling_rights == before.castling_rights,
        after.en_passant == before.en_passant,
        after.half_moves == before.half_moves,
        after.full_moves == before.full_moves,
{
    let i = square.idx() as u64;
    let o = before.occupied_squares@[piece.color.idx()].0;
    let t = before.piece_bbs@[piece.piece_type.idx()].0;
    assert(((o | (1u64 << i)) ^ (1u64 << i)) == o && ((t | (1u64 << i)) ^ (1u64 << i)) == t) by (bit_vector)
        requires
            i < 64,
            (o >> i) & 1u64 != 1u64,
            (t >> i) & 1u64 != 1u64,
    ;
    assert(after.piece_list@ =~= before.piece_list@);
    assert(after.occupied_squares@ =~= before.occupied_squares@);
    assert(after.piece_bbs@ =~= before.piece_bbs@);
}

impl Board {
    /// The squares occupied by `side`.
    pub open spec fn occ(self, side: Color) -> u64 {
        self.occupied_squares@[side.idx()].0
    }

    /// The squares occupied by either side.
    pub open spec fn occ_all(self) -> u64 {
        self.occupied_squares@[0].0 | self.occupied_squares@[1].0
    }

    /// The squares of the pieces of type `ptype` and side `color`.
    pub open spec fn spec_bb(self, ptype: PieceType, color: Color) -> u64 {
        self.piece_bbs@[ptype.idx()].0 & self.occ(color)
    }

    /// The squares `side` attacks, given the occupancies `ours` and `theirs`:
    /// the squares its pawns capture on and the squares its other pieces see,
    /// less the squares of its own pieces.
    pub open spec fn spec_attacked_with(self, side: Color, ours: u64, theirs: u64) -> u64 {
        attack_union(self.piece_list@, side, ours, theirs, 64) & !self.occ(side)
    }

    /// The squares `side`'s king may not move to: what the other side's
    /// pieces attack, with the king lifted off the board and the other side's
    /// own pieces kept as targets.
    pub open spec fn spec_king_danger(self, side: Color) -> u64 {
        let ours = self.occ(side);
        let theirs = self.occ(side.spec_opp());
        let ours_without_king = ours & !self.spec_bb(PieceType::King, side);
        attack_union(self.piece_list@, side.spec_opp(), theirs, ours_without_king, 64)
    }

    /// The pieces of `side` that see the other side's king.
    pub open spec fn spec_checkers(self, side: Color) -> u64 {
        let ours = self.occ(side);
        let theirs = self.occ(side.spec_opp());
        let opp_king = self.piece_bbs@[PieceType::King.idx()].0 & self.occ(side.spec_opp());
        checkers_union(self.piece_list@, side, ours, theirs, opp_king, 64)
    }

    /// The rays from `side`'s king that hold exactly one of `side`'s pieces
    /// and reach a slider of the other side able to move along them:
    /// orthogonal rays first, then diagonal ones.
    pub open spec fn spec_pinrays(self, side: Color) -> Seq<u64> {
        let king = self.spec_bb(PieceType::King, side);
        let opp = side.spec_opp();
        let blockers = self.occ(opp);
        let diag = self.spec_bb(PieceType::Bishop, opp) | self.spec_bb(PieceType::Queen, opp);
        let ortho = self.spec_bb(PieceType::Rook, opp) | self.spec_bb(PieceType::Queen, opp);
        pin_rays(tz(king), Step::spec_ortho_dirs(), blockers, ortho, self.occ(side)) + pin_rays(
            tz(king),
            Step::spec_diag_dirs(),
            blockers,
            diag,
            self.occ(side),
        )
    }

    /// Whether `side`'s king would be seen by a slider of the other side
    /// if the squares of `invisible` were empty.
    pub open spec fn spec_is_xray_check(self, side: Color, invisible: u64) -> bool {
        let king = tz(self.spec_bb(PieceType::King, side));
        let opp = side.spec_opp();
        let blockers = self.occ_all() & !invisible;
        let diag = self.spec_bb(PieceType::Bishop, opp) | self.spec_bb(PieceType::Queen, opp);
        let ortho = self.spec_bb(PieceType::Rook, opp) | self.spec_bb(PieceType::Queen, opp);
        any_ray_hits(king, Step::spec_ortho_dirs(), blockers, ortho) || any_ray_hits(
            king,
            Step::spec_diag_dirs(),
            blockers,
            diag,
        )
    }

    /// The piece on `square`, if any.
    pub fn get_at(&self, square: Square) -> (r: Option<&Piece>)
        ensures
            match self.piece_list@[square.idx()] {
                Some(p) => r matches Some(q) && *q == p,
                None => r is None,
            },
    {
        match &self.piece_list[square.index()] {
            Some(p) => Some(p),
            None => None,
        }
    }

    /// Put `piece` on `square`, and record it in the bitboards of its side
    /// and type.
    pub fn add_at(&mut self, square: Square, piece: Piece)
        ensures
            placed(*old(self), square, piece, *final(self)),
    {
        let bb = Bitboard::from_square(square);
        let idx = square.index();
        self.piece_list[idx] = Some(piece);
        let c = piece.color.index();
        let t = piece.piece_type().index();
        self.occupied_squares[c] = self.occupied_squares[c] | bb;
        self.piece_bbs[t] = self.piece_bbs[t] | bb;
    }

    /// Take the piece off `square`, if there is one, and return it; its
    /// square's bit is flipped in the bitboards of its side and type.
    pub fn remove_at(&mut self, square: Square) -> (r: Option<Piece>)
        ensures
            r == old(self).piece_list@[square.idx()],
            match r {
                None => *final(self) == *old(self),
                Some(piece) => lifted(*old(self), square, piece, *final(self)),
            },
    {
        let bb = Bitboard::from_square(square);
        let idx = square.index();
        let piece = match self.piece_list[idx] {
            Some(p) => p,
            None => return None,
        };
        self.piece_list[idx] = None;
        let c = piece.color.index();
        let t = piece.piece_type().index();
        self.occupied_squares[c] = self.occupied_squares[c] ^ bb;
        self.piece_bbs[t] = self.piece_bbs[t] ^ bb;
        Some(piece)
    }

    /// The squares occupied by `side`.
    pub fn occupied_by(&self, side: Color) -> (r: Bitboard)
        ensures
            r.0 == self.occ(side),
    {
        self.occupied_squares[side.index()]
    }

    /// The squares occupied by either side.
    pub fn all_occupied(&self) -> (r: Bitboard)
        ensures
            r.0 == self.occ_all(),
    {
        let mut result = Bitboard::empty();
        result.add_in_place(self.occupied_squares[0]);
        result.add_in_place(self.occupied_squares[1]);
        proof {
            lemma_or_assoc(self.occupied_squares@[0].0, 0, 0);
        }
        result
    }

    /// The squares of the pieces of type `ptype` and side `color`.
    pub fn get_bb(&self, ptype: PieceType, color: Color) -> (r: Bitboard)
        ensures
            r.0 == self.spec_bb(ptype, color),
    {
        self.piece_bbs[ptype.index()] & self.occupied_by(color)
    }

    /// The union of what the pieces of `side` attack, given the occupancies
    /// `ours` and `theirs`.
    fn attacks_from(&self, side: Color, ours: Bitboard, theirs: Bitboard) -> (r: Bitboard)
        ensures
            r.0 == attack_union(self.piece_list@, side, ours.0, theirs.0, 64),
    {
        let mut result: u64 = 0;
        let mut i: usize = 0;
        while i < 64
            invariant
                i <= 64,
                result == attack_union(self.piece_list@, side, ours.0, theirs.0, i as int),
            decreases 64 - i,
        {
            match &self.piece_list[i] {
                Some(piece) => {
                    if piece.color() == side {
                        let seen = piece.attacks(ours, theirs);
                        result = result | seen.0;
                    }
                },
                None => {},
            }
            i = i + 1;
        }
        Bitboard(result)
    }

    /// Compute the squares this side's king cannot move to
    ///
    /// Subtly different from the `attacked_by` squares, since the king itself
    /// could be blocking some attacked squares
    pub fn king_danger_squares(&self, side: Color) -> (r: Bitboard)
        ensures
            r.0 == self.spec_king_danger(side),
    {
        let ours = self.occupied_by(side);
        let theirs = self.occupied_by(side.opp());
        let ours_without_king = ours.remove(self.get_bb(PieceType::King, side));
        self.attacks_from(side.opp(), theirs, ours_without_king)
    }

    /// The squares `side` attacks.
    pub fn attacked_by(&self, side: Color) -> (r: Bitboard)
        ensures
            r.0 == self.spec_attacked_with(side, self.occ(side), self.occ(side.spec_opp())),
    {
        let ours = self.occupied_by(side);
        let theirs = self.occupied_by(side.opp());
        self.compute_attacked_by(side, ours, theirs)
    }

    /// Compute a bitboard of the requested side's pieces that are putting the
    /// opponent king in check
    pub fn compute_checkers(&self, side: Color) -> (r: Bitboard)
        ensures
            r.0 == self.spec_checkers(side),
    {
        let ours = self.occupied_by(side);
        let theirs = self.occupied_by(side.opp());
        let opp_king = self.piece_bbs[PieceType::King.index()] & self.occupied_by(side.opp());
        let mut result: u64 = 0;
        let mut i: usize = 0;
        while i < 64
            invariant
                i <= 64,
                ours.0 == self.occ(side),
                theirs.0 == self.occ(side.spec_opp()),
                opp_king.0 == self.piece_bbs@[PieceType::King.idx()].0 & self.occ(side.spec_opp()),
                result == checkers_union(self.piece_list@, side, ours.0, theirs.0, opp_king.0, i as int),
            decreases 64 - i,
        {
            match &self.piece_list[i] {
                Some(piece) => {
                    if piece.color() == side && piece.visible_squares(ours, theirs).contains(opp_king) {
                        result = result | piece.position.0;
                    }
                },
                None => {},
            }
            i = i + 1;
        }
        Bitboard(result)
    }

    /// The rays from `side`'s king along `dirs` that reach one of `sliders`
    /// and hold exactly one of `side`'s pieces, appended to `pinrays`.
    fn push_pinrays(
        &self,
        side: Color,
        king_bb: Bitboard,
        dirs: [Step; 4],
        blockers: Bitboard,
        sliders: Bitboard,
        pinrays: &mut Vec<Bitboard>,
    )
        ensures
            final(pinrays)@.len() == old(pinrays)@.len() + pin_rays(
                king_bb.lsb(),
                dirs@,
                blockers.0,
                sliders.0,
                self.occ(side),
            ).len(),
            forall|k: int| 0 <= k < old(pinrays)@.len() ==> #[trigger] final(pinrays)@[k] == old(pinrays)@[k],
            forall|k: int|
                0 <= k < pin_rays(king_bb.lsb(), dirs@, blockers.0, sliders.0, self.occ(side)).len()
                    ==> #[trigger] final(pinrays)@[old(pinrays)@.len() + k].0 == pin_rays(
                    king_bb.lsb(),
                    dirs@,
                    blockers.0,
                    sliders.0,
                    self.occ(side),
                )[k],
    {
        let own = self.occupied_by(side);
        let ghost start = pinrays@.len();
        let mut i: usize = 0;
        while i < 4
            invariant
                i <= 4,
                own.0 == self.occ(side),
                start == old(pinrays)@.len(),
                pinrays@.len() == start + pin_rays(king_bb.lsb(), dirs@.take(i as int), blockers.0, sliders.0, own.0).len(),
                forall|k: int| 0 <= k < start ==> #[trigger] pinrays@[k] == old(pinrays)@[k],
                forall|k: int|
                    0 <= k < pin_rays(king_bb.lsb(), dirs@.take(i as int), blockers.0, sliders.0, own.0).len()
                        ==> #[trigger] pinrays@[start + k].0 == pin_rays(
                        king_bb.lsb(),
                        dirs@.take(i as int),
                        blockers.0,
                        sliders.0,
                        own.0,
                    )[k],
            decreases 4 - i,
        {
            let ray = king_bb.visible_ray(dirs[i], blockers);
            proof {
                assert(dirs@.take(i + 1).drop_last() =~= dirs@.take(i as int));
            }
            if ray.has_overlap(sliders) && (ray & own).is_single() {
                pinrays.push(ray);
            }
            i = i + 1;
        }
        proof {
            assert(dirs@.take(4) =~= dirs@);
        }
    }

    /// The rays from `side`'s king that pin one of its pieces to it.
    pub fn compute_pinrays(&self, side: Color) -> (r: Vec<Bitboard>)
        ensures
            r@.len() == self.spec_pinrays(side).len(),
            forall|k: int| 0 <= k < r@.len() ==> #[trigger] r@[k].0 == self.spec_pinrays(side)[k],
    {
        let king_bb = self.get_bb(PieceType::King, side);
        let opp = side.opp();
        let blockers = self.occupied_by(opp);
        let diag_sliders = self.get_bb(PieceType::Bishop, opp) | self.get_bb(PieceType::Queen, opp);
        let ortho_sliders = self.get_bb(PieceType::Rook, opp) | self.get_bb(PieceType::Queen, opp);
        let mut pinrays: Vec<Bitboard> = Vec::new();
        self.push_pinrays(side, king_bb, Step::ortho_dirs(), blockers, ortho_sliders, &mut pinrays);
        let ghost mid = pinrays@;
        self.push_pinrays(side, king_bb, Step::diag_dirs(), blockers, diag_sliders, &mut pinrays);
        proof {
            let a = pin_rays(king_bb.lsb(), Step::spec_ortho_dirs(), blockers.0, ortho_sliders.0, self.occ(side));
            let b = pin_rays(king_bb.lsb(), Step::spec_diag_dirs(), blockers.0, diag_sliders.0, self.occ(side));
            assert forall|k: int| 0 <= k < pinrays@.len() implies #[trigger] pinrays@[k].0 == self.spec_pinrays(side)[k] by {
                if k < a.len() {
                    assert(pinrays@[k] == mid[k]);
                    assert(mid[0 + k].0 == a[k]);
                } else {
                    assert(pinrays@[a.len() + (k - a.len())].0 == b[k - a.len()]);
                }
            }
        }
        pinrays
    }

    /// Whether one of the rays from `king_bb` along `dirs` reaches one of
    /// `sliders`.
    fn any_ray_hits(king_bb: Bitboard, dirs: [Step; 4], blockers: Bitboard, sliders: Bitboard) -> (r: bool)
        ensures
            r == any_ray_hits(king_bb.lsb(), dirs@, blockers.0, sliders.0),
    {
        let mut i: usize = 0;
        while i < 4
            invariant
                i <= 4,
                forall|k: int| 0 <= k < i ==> #[trigger] ray(
                    king_bb.lsb(),
                    dirs@[k].delta_rank as int,
                    dirs@[k].delta_file as int,
                    7,
                    blockers.0,
                ) & sliders.0 == 0,
            decreases 4 - i,
        {
            let ray = king_bb.visible_ray(dirs[i], blockers);
            if ray.has_overlap(sliders) {
                return true;
            }
            i = i + 1;
        }
        false
    }

    /// Whether `side`'s king would be in check from a slider if the squares
    /// of `invisible` were empty.
    pub fn is_xray_check(&self, side: Color, invisible: Bitboard) -> (r: bool)
        ensures
            r == self.spec_is_xray_check(side, invisible.0),
    {
        let king_bb = self.get_bb(PieceType::King, side);
        let opp = side.opp();
        let blockers = self.all_occupied().remove(invisible);
        let diag_sliders = self.get_bb(PieceType::Bishop, opp) | self.get_bb(PieceType::Queen, opp);
        let ortho_sliders = self.get_bb(PieceType::Rook, opp) | self.get_bb(PieceType::Queen, opp);
        let ortho_check = Board::any_ray_hits(king_bb, Step::ortho_dirs(), blockers, ortho_sliders);
        if ortho_check {
            return true;
        }
        let diag_check = Board::any_ray_hits(king_bb, Step::diag_dirs(), blockers, diag_sliders);
        if diag_check {
            return true;
        }
        false
    }

    /// The squares `side` attacks, given the occupancies `ours` and `theirs`.
    pub fn compute_attacked_by(&self, side: Color, ours: Bitboard, theirs: Bitboard) -> (r: Bitboard)
        ensures
            r.0 == self.spec_attacked_with(side, ours.0, theirs.0),
    {
        self.attacks_from(side, ours, theirs).remove(self.occupied_by(side))
    }
}


/// What a piece placement is built of while it is read: the piece list, the
/// bitboard of each piece type, and the bitboard of each side.
pub type Placement = (Seq<Option<Piece>>, Seq<u64>, Seq<u64>);

/// The empty placement.
pub open spec fn empty_placement() -> Placement {
    (Seq::new(64, |i: int| None::<Piece>), Seq::new(6, |i: int| 0u64), Seq::new(2, |i: int| 0u64))
}

/// Put a piece of side `c` and type `t` on rank `r`, file `f`.
pub open spec fn place_piece(st: Placement, c: Color, t: PieceType, r: int, f: int) -> Placement {
    let position = Bitboard(bit(8 * r + f));
    (
        st.0.update(8 * r + f, Some(Piece { color: c, piece_type: t, position })),
        st.1.update(t.idx(), st.1[t.idx()] | position.0),
        st.2.update(c.idx(), st.2[c.idx()] | position.0),
    )
}

/// Place the atoms of one rank, `r`, starting on file `f`.
pub open spec fn place_atoms(st: Placement, atoms: Seq<FENAtom>, r: int, f: int) -> Placement
    decreases atoms.len(),
{
    if atoms.len() == 0 {
        st
    } else {
        match atoms[0] {
            FENAtom::Gap(n) => place_atoms(st, atoms.drop_first(), r, f + n),
            FENAtom::Piece(c, t) => place_atoms(place_piece(st, c, t, r, f), atoms.drop_first(), r, f + 1),
        }
    }
}

/// Place the ranks `rows`, listed from the bottom up, starting on rank `r`.
pub open spec fn place_rows(st: Placement, rows: Seq<Seq<FENAtom>>, r: int) -> Placement
    decreases rows.len(),
{
    if rows.len() == 0 {
        st
    } else {
        place_rows(place_atoms(st, rows[0], r, 0), rows.drop_first(), r + 1)
    }
}

/// Whether each piece of a rank lands on the board when its atoms are laid
/// out from file `f` on rank `r`, and the file count stays within `usize`.
pub open spec fn atoms_fit(atoms: Seq<FENAtom>, r: int, f: int) -> bool
    decreases atoms.len(),
{
    if atoms.len() == 0 {
        true
    } else {
        match atoms[0] {
            FENAtom::Gap(n) => f + n <= usize::MAX && atoms_fit(atoms.drop_first(), r, f + n),
            FENAtom::Piece(_, _) => 0 <= 8 * r + f < 64 && atoms_fit(atoms.drop_first(), r, f + 1),
        }
    }
}

/// Whether every piece of the ranks `rows`, listed from the bottom up from
/// rank `r`, lands on the board.
pub open spec fn rows_fit(rows: Seq<Seq<FENAtom>>, r: int) -> bool
    decreases rows.len(),
{
    if rows.len() == 0 {
        true
    } else {
        atoms_fit(rows[0], r, 0) && rows_fit(rows.drop_first(), r + 1)
    }
}

/// Why a FEN string could not be read into a board.
#[derive(Debug, PartialEq, Eq, Structural, Clone, Copy)]
pub enum BoardError {
    /// The string has fewer than six space-separated fields.
    MissingField,
    /// The piece placement could not be parsed.
    Placement,
    /// The side to move is not a side name.
    InvalidColor,
    /// The castling field holds an unknown character.
    InvalidCastling,
    /// A move counter is not a number from 0 to 255.
    InvalidCounter,
}

/// The ranks of the piece placement of a FEN string, listed from the bottom
/// up, when it parses.
pub open spec fn fen_rows(fen: Seq<char>) -> Option<Seq<Seq<FENAtom>>> {
    match spec_fen_board(fields(fen)[0]) {
        Ok((_, ranks)) => Some(ranks.reverse()),
        Err(_) => None,
    }
}

/// The FEN strings the board reader is defined on: those whose pieces all
/// land on the board when they parse.
pub open spec fn fen_in_domain(fen: Seq<char>) -> bool {
    match fen_rows(fen) {
        Some(rows) => rows_fit(rows, 0),
        None => true,
    }
}

/// The outcome of reading a FEN string, when it fails.
pub open spec fn fen_error(fen: Seq<char>) -> Option<BoardError> {
    let f = fields(fen);
    if fen_rows(fen) is None {
        Some(BoardError::Placement)
    } else if f.len() < 2 {
        Some(BoardError::MissingField)
    } else if color_of_name(f[1]) is None {
        Some(BoardError::InvalidColor)
    } else if f.len() < 3 {
        Some(BoardError::MissingField)
    } else if rights_of_chars(f[2]) is None {
        Some(BoardError::InvalidCastling)
    } else if f.len() < 5 {
        Some(BoardError::MissingField)
    } else if parse_u8_spec(f[4]) is None {
        Some(BoardError::InvalidCounter)
    } else if f.len() < 6 {
        Some(BoardError::MissingField)
    } else if parse_u8_spec(f[5]) is None {
        Some(BoardError::InvalidCounter)
    } else {
        None
    }
}

/// The board a FEN string describes, field by field.
pub open spec fn board_matches_fen(b: Board, fen: Seq<char>) -> bool {
    let f = fields(fen);
    let st = place_rows(empty_placement(), fen_rows(fen)->0, 0);
    &&& b.piece_list@ == st.0
    &&& b.piece_bbs@.map_values(|x: Bitboard| x.0) == st.1
    &&& b.occupied_squares@.map_values(|x: Bitboard| x.0) == st.2
    &&& Some(b.current) == color_of_name(f[1])
    &&& Some(b.castling_rights.0) == rights_of_chars(f[2])
    &&& match square_index_of_name(f[3]) {
        Some(i) => b.en_passant matches Some(sq) && sq.idx() == i,
        None => b.en_passant is None,
    }
    &&& Some(b.half_moves) == parse_u8_spec(f[4])
    &&& Some(b.full_moves) == parse_u8_spec(f[5])
}

impl Board {
    /// Lay out the ranks of a parsed placement, listed from the top down as
    /// in a FEN string, onto an empty board.
    fn place(ranks: &Vec<Vec<FENAtom>>) -> (r: ([Option<Piece>; 64], [Bitboard; 6], [Bitboard; 2]))
        requires
            rows_fit(ranks@.map_values(|v: Vec<FENAtom>| v@).reverse(), 0),
        ensures
            ({
                let st = place_rows(empty_placement(), ranks@.map_values(|v: Vec<FENAtom>| v@).reverse(), 0);
                &&& r.0@ == st.0
                &&& r.1@.map_values(|x: Bitboard| x.0) == st.1
                &&& r.2@.map_values(|x: Bitboard| x.0) == st.2
            }),
    {
        let ghost rows = ranks@.map_values(|v: Vec<FENAtom>| v@).reverse();
        let mut piece_bbs: [Bitboard; 6] = [Bitboard(0); 6];
        let mut occupied_squares: [Bitboard; 2] = [Bitboard(0); 2];
        let mut piece_list: [Option<Piece>; 64] = [None; 64];
        proof {
            assert(piece_list@ =~= empty_placement().0);
            assert(piece_bbs@.map_values(|x: Bitboard| x.0) =~= empty_placement().1);
            assert(occupied_squares@.map_values(|x: Bitboard| x.0) =~= empty_placement().2);
            assert(rows.skip(0) =~= rows);
        }
        let nranks = ranks.len();
        let mut rank: usize = 0;
        while rank < nranks
            invariant
                rank <= nranks,
                nranks == ranks@.len(),
                rows == ranks@.map_values(|v: Vec<FENAtom>| v@).reverse(),
                rows_fit(rows.skip(rank as int), rank as int),
                place_rows(empty_placement(), rows, 0) == place_rows(
                    (piece_list@, piece_bbs@.map_values(|x: Bitboard| x.0), occupied_squares@.map_values(|x: Bitboard| x.0)),
                    rows.skip(rank as int),
                    rank as int,
                ),
            decreases nranks - rank,
        {
            let atoms = &ranks[nranks - 1 - rank];
            proof {
                assert(rows.skip(rank as int)[0] == atoms@);
                assert(rows.skip(rank as int).drop_first() =~= rows.skip(rank + 1));
            }
            let ghost st_before: Placement = (
                piece_list@,
                piece_bbs@.map_values(|x: Bitboard| x.0),
                occupied_squares@.map_values(|x: Bitboard| x.0),
            );
            let mut file: usize = 0;
            let mut k: usize = 0;
            proof {
                assert(atoms@.skip(0) =~= atoms@);
            }
            while k < atoms.len()
                invariant
                    k <= atoms@.len(),
                    rank < nranks,
                    atoms_fit(atoms@.skip(k as int), rank as int, file as int),
                    place_atoms(
                        (
                            piece_list@,
                            piece_bbs@.map_values(|x: Bitboard| x.0),
                            occupied_squares@.map_values(|x: Bitboard| x.0),
                        ),
                        atoms@.skip(k as int),
                        rank as int,
                        file as int,
                    ) == place_atoms(st_before, atoms@, rank as int, 0),
                decreases atoms@.len() - k,
            {
                proof {
                    assert(atoms@.skip(k as int)[0] == atoms@[k as int]);
                    assert(atoms@.skip(k as int).drop_first() =~= atoms@.skip(k + 1));
                }
                match atoms[k] {
                    FENAtom::Gap(n) => {
                        file = file + n;
                    },
                    FENAtom::Piece(color, piece_type) => {
                        let ghost cur: Placement = (
                            piece_list@,
                            piece_bbs@.map_values(|x: Bitboard| x.0),
                            occupied_squares@.map_values(|x: Bitboard| x.0),
                        );
                        let position = Bitboard::new(rank, file);
                        proof {
                            lemma_bit_square(8 * rank + file);
                        }
                        let sq = Square::from_bitboard(position);
                        let piece = Piece { color, piece_type, position };
                        piece_list[sq.index()] = Some(piece);
                        let t = piece_type.index();
                        let c = color.index();
                        piece_bbs[t] = piece_bbs[t] | position;
                        occupied_squares[c] = occupied_squares[c] | position;
                        proof {
                            let next = place_piece(cur, color, piece_type, rank as int, file as int);
                            assert(piece_list@ =~= next.0);
                            assert(piece_bbs@.map_values(|x: Bitboard| x.0) =~= next.1);
                            assert(occupied_squares@.map_values(|x: Bitboard| x.0) =~= next.2);
                        }
                        file = file + 1;
                    },
                }
                k = k + 1;
            }
            proof {
                assert(atoms@.skip(k as int) =~= Seq::<FENAtom>::empty());
            }
            rank = rank + 1;
        }
        (piece_list, piece_bbs, occupied_squares)
    }
}


impl Board {
    /// Read a board from a FEN string such as
    /// `rnbqkbnr/pppppppp/8/8/8/8/PPPPPPPP/RNBQKBNR w KQkq - 0 1`.
    ///
    /// The six space-separated fields are the piece placement, the side to
    /// move, the castling rights, the en-passant square (anything that names
    /// no square, such as `-`, means none), the half-move clock and the
    /// full-move number.
    pub fn from_fen(fen: &str) -> (r: Result<Board, BoardError>)
        requires
            fen_in_domain(fen@),
        ensures
            match fen_error(fen@) {
                Some(e) => r == Err::<Board, BoardError>(e),
                None => r matches Ok(b) && board_matches_fen(b, fen@),
            },
    {
        let parts = split_fields(fen);
        proof {
            lemma_fields_nonempty(fen@);
        }
        let piece_string = parts[0];
        let placement = match FEN::try_from(piece_string) {
            Ok(p) => p,
            Err(_) => return Err(BoardError::Placement),
        };
        proof {
            assert(placement.ranks@.map_values(|v: Vec<FENAtom>| v@).reverse() == fen_rows(fen@)->0);
        }
        let (piece_list, piece_bbs, occupied_squares) = Board::place(&placement.ranks);
        if parts.len() < 2 {
            return Err(BoardError::MissingField);
        }
        let current = match Color::from_name(parts[1]) {
            Ok(c) => c,
            Err(_) => return Err(BoardError::InvalidColor),
        };
        if parts.len() < 3 {
            return Err(BoardError::MissingField);
        }
        let castling_rights = match CastlingRights::from_field(parts[2]) {
            Ok(c) => c,
            Err(_) => return Err(BoardError::InvalidCastling),
        };
        if parts.len() < 4 {
            return Err(BoardError::MissingField);
        }
        let en_passant = match Square::from_alg(parts[3]) {
            Ok(sq) => Some(sq),
            Err(_) => None,
        };
        if parts.len() < 5 {
            return Err(BoardError::MissingField);
        }
        let half_moves = match parse_u8(parts[4]) {
            Some(n) => n,
            None => return Err(BoardError::InvalidCounter),
        };
        if parts.len() < 6 {
            return Err(BoardError::MissingField);
        }
        let full_moves = match parse_u8(parts[5]) {
            Some(n) => n,
            None => return Err(BoardError::InvalidCounter),
        };
        Ok(Board {
            piece_list,
            piece_bbs,
            occupied_squares,
            current,
            castling_rights,
            en_passant,
            half_moves,
            full_moves,
        })
    }
}


/// The piece type on file `f` of a side's back rank at the start of a game.
pub open spec fn back_rank_type(f: int) -> PieceType {
    if f == 0 || f == 7 {
        PieceType::Rook
    } else if f == 1 || f == 6 {
        PieceType::Knight
    } else if f == 2 || f == 5 {
        PieceType::Bishop
    } else if f == 3 {
        PieceType::Queen
    } else {
        PieceType::King
    }
}

/// The side and type of the piece on square index `i` at the start of a
/// game.
pub open spec fn start_piece(i: int) -> Option<(Color, PieceType)> {
    if 0 <= i < 8 {
        Some((Color::White, back_rank_type(i)))
    } else if 8 <= i < 16 {
        Some((Color::White, PieceType::Pawn))
    } else if 48 <= i < 56 {
        Some((Color::Black, PieceType::Pawn))
    } else if 56 <= i < 64 {
        Some((Color::Black, back_rank_type(i - 56)))
    } else {
        None
    }
}

impl Board {
    /// The piece on square index `i` at the start of a game.
    fn start_piece_at(i: usize) -> (r: Option<Piece>)
        requires
            i < 64,
        ensures
            match start_piece(i as int) {
                Some((c, t)) => r == Some(Piece { color: c, piece_type: t, position: Bitboard(bit(i as int)) }),
                None => r is None,
            },
    {
        let f = i % 8;
        let back = if f == 0 || f == 7 {
            PieceType::Rook
        } else if f == 1 || f == 6 {
            PieceType::Knight
        } else if f == 2 || f == 5 {
            PieceType::Bishop
        } else if f == 3 {
            PieceType::Queen
        } else {
            PieceType::King
        };
        let position = Bitboard::from_square(Square::from_index(i));
        if i < 8 {
            Some(Piece { color: Color::White, piece_type: back, position })
        } else if i < 16 {
            Some(Piece { color: Color::White, piece_type: PieceType::Pawn, position })
        } else if i < 48 {
            None
        } else if i < 56 {
            Some(Piece { color: Color::Black, piece_type: PieceType::Pawn, position })
        } else {
            Some(Piece { color: Color::Black, piece_type: back, position })
        }
    }

    /// The board at the start of a game: White to move, all castling rights,
    /// no en-passant square, the half-move clock at 0 and the move number at
    /// 1.
    pub fn new() -> (r: Board)
        ensures
            forall|i: int| 0 <= i < 64 ==> (#[trigger] r.piece_list@[i]) == match start_piece(i) {
                Some((c, t)) => Some(Piece { color: c, piece_type: t, position: Bitboard(bit(i)) }),
                None => None,
            },
            r.piece_bbs@[0].0 == 0x00FF00000000FF00u64,
            r.piece_bbs@[1].0 == 0x4200000000000042u64,
            r.piece_bbs@[2].0 == 0x2400000000000024u64,
            r.piece_bbs@[3].0 == 0x8100000000000081u64,
            r.piece_bbs@[4].0 == 0x0800000000000008u64,
            r.piece_bbs@[5].0 == 0x1000000000000010u64,
            r.occupied_squares@[0].0 == 0x000000000000FFFFu64,
            r.occupied_squares@[1].0 == 0xFFFF000000000000u64,
            r.current == Color::White,
            r.castling_rights.0 == 0b1111,
            r.en_passant is None,
            r.half_moves == 0,
            r.full_moves == 1,
    {
        let mut piece_list: [Option<Piece>; 64] = [None; 64];
        let mut i: usize = 0;
        while i < 64
            invariant
                i <= 64,
                forall|j: int| 0 <= j < i ==> (#[trigger] piece_list@[j]) == match start_piece(j) {
                    Some((c, t)) => Some(Piece { color: c, piece_type: t, position: Bitboard(bit(j)) }),
                    None => None,
                },
            decreases 64 - i,
        {
            piece_list[i] = Board::start_piece_at(i);
            i = i + 1;
        }
        Board {
            current: Color::White,
            piece_bbs: [
                Bitboard(0x00FF00000000FF00),
                Bitboard(0x4200000000000042),
                Bitboard(0x2400000000000024),
                Bitboard(0x8100000000000081),
                Bitboard(0x0800000000000008),
                Bitboard(0x1000000000000010),
            ],
            occupied_squares: [Bitboard(0x000000000000FFFF), Bitboard(0xFFFF000000000000)],
            piece_list,
            castling_rights: CastlingRights::new(),
            en_passant: None,
            half_moves: 0,
            full_moves: 1,
        }
    }
}


impl Board {
    /// Whether the atoms of one rank, laid out from file 0 on rank `rank`,
    /// put every piece on the board.
    fn atoms_fit_exec(atoms: &Vec<FENAtom>, rank: usize) -> (r: bool)
        ensures
            r == atoms_fit(atoms@, rank as int, 0),
    {
        let mut file: usize = 0;
        let mut k: usize = 0;
        proof {
            assert(atoms@.skip(0) =~= atoms@);
        }
        while k < atoms.len()
            invariant
                k <= atoms@.len(),
                atoms_fit(atoms@, rank as int, 0) == atoms_fit(atoms@.skip(k as int), rank as int, file as int),
            decreases atoms@.len() - k,
        {
            proof {
                assert(atoms@.skip(k as int)[0] == atoms@[k as int]);
                assert(atoms@.skip(k as int).drop_first() =~= atoms@.skip(k + 1));
            }
            match atoms[k] {
                FENAtom::Gap(n) => {
                    if file > usize::MAX - n {
                        return false;
                    }
                    file = file + n;
                },
                FENAtom::Piece(_, _) => {
                    if rank >= 8 || file >= 64 || 8 * rank + file >= 64 {
                        return false;
                    }
                    file = file + 1;
                },
            }
            k = k + 1;
        }
        proof {
            assert(atoms@.skip(k as int) =~= Seq::<FENAtom>::empty());
        }
        true
    }

    /// Whether `fen` is a string the board reader is defined on: when its
    /// piece placement parses, every piece lands on the board.
    pub fn fen_fits(fen: &str) -> (r: bool)
        ensures
            r == fen_in_domain(fen@),
    {
        let parts = split_fields(fen);
        proof {
            lemma_fields_nonempty(fen@);
        }
        let placement = match FEN::try_from(parts[0]) {
            Ok(p) => p,
            Err(_) => return true,
        };
        let ghost rows = placement.ranks@.map_values(|v: Vec<FENAtom>| v@).reverse();
        let nranks = placement.ranks.len();
        let mut rank: usize = 0;
        proof {
            assert(rows.skip(0) =~= rows);
            assert(fen_rows(fen@) == Some(rows));
        }
        while rank < nranks
            invariant
                rank <= nranks,
                fen_in_domain(fen@) == rows_fit(rows, 0),
                nranks == placement.ranks@.len(),
                rows == placement.ranks@.map_values(|v: Vec<FENAtom>| v@).reverse(),
                rows_fit(rows, 0) == rows_fit(rows.skip(rank as int), rank as int),
            decreases nranks - rank,
        {
            proof {
                assert(rows.skip(rank as int)[0] == placement.ranks@[nranks - 1 - rank]@);
                assert(rows.skip(rank as int).drop_first() =~= rows.skip(rank + 1));
            }
            if !Board::atoms_fit_exec(&placement.ranks[nranks - 1 - rank], rank) {
                return false;
            }
            rank = rank + 1;
        }
        proof {
            assert(rows.skip(nranks as int) =~= Seq::<Seq<FENAtom>>::empty());
        }
        true
    }
}

impl core::str::FromStr for Square {
    type Err = InvalidSquare;

    fn from_str(s: &str) -> (r: Result<Square, InvalidSquare>)
        ensures
            match square_index_of_name(s@) {
                Some(i) => r matches Ok(sq) && sq.idx() == i,
                None => r is Err,
            },
    {
        Square::from_alg(s)
    }
}

impl core::str::FromStr for Color {
    type Err = InvalidColor;

    fn from_str(s: &str) -> (r: Result<Color, InvalidColor>)
        ensures
            match color_of_name(s@) {
                Some(c) => r == Ok::<Color, InvalidColor>(c),
                None => r is Err,
            },
    {
        Color::from_name(s)
    }
}


/// The opponent of the opponent is the side itself, and the opponent of
/// White is Black and of Black is White.
pub proof fn lemma_opp_involutive(c: Color)
    ensures
        c.spec_opp().spec_opp() == c,
        c.spec_opp() != c,
        Color::White.spec_opp() == Color::Black,
        Color::Black.spec_opp() == Color::White,
        (c.spec_opp() == Color::White) == (c == Color::Black),
{
}

/// Reading the name of a square gives the square back.
pub proof fn lemma_square_name_round_trip(sq: Square)
    ensures
        square_index_of_name(sq.alg_name()) == Some(sq.idx()),
{
    let n = sq.alg_name();
    assert(n.len() == 2);
    assert(ascii_lower(n[0]) == n[0]);
}

/// A square's index is made of its rank and file.
pub proof fn lemma_square_rank_file(sq: Square)
    ensures
        0 <= sq.spec_rank() < 8,
        0 <= sq.spec_file() < 8,
        sq.idx() == 8 * sq.spec_rank() + sq.spec_file(),
{
}

/// Setting a square's bit in a word keeps the word's other bits.
proof fn lemma_has_bit_or_bit(x: u64, j: int, i: int)
    requires
        0 <= j < 64,
    ensures
        has_bit(x | bit(j), i) == (has_bit(x, i) || i == j),
{
    lemma_bits_or(x, bit(j));
    lemma_has_bit_bit(j, i);
}

/// What a placement keeps true: each listed piece stands on its own square,
/// and each square of a side's bitboard holds a listed piece.
pub open spec fn placement_consistent(st: Placement) -> bool {
    &&& st.0.len() == 64
    &&& st.1.len() == 6
    &&& st.2.len() == 2
    &&& forall|i: int| 0 <= i < 64 ==> (#[trigger] st.0[i] matches Some(p) ==> p.position.0 == bit(i))
    &&& forall|c: int, i: int| 0 <= c < 2 && #[trigger] has_bit(st.2[c], i) ==> 0 <= i < 64 && st.0[i] is Some
}

proof fn lemma_place_atoms_consistent(st: Placement, atoms: Seq<FENAtom>, r: int, f: int)
    requires
        placement_consistent(st),
        atoms_fit(atoms, r, f),
    ensures
        placement_consistent(place_atoms(st, atoms, r, f)),
    decreases atoms.len(),
{
    if atoms.len() > 0 {
        match atoms[0] {
            FENAtom::Gap(n) => {
                lemma_place_atoms_consistent(st, atoms.drop_first(), r, f + n);
            },
            FENAtom::Piece(c, t) => {
                let j = 8 * r + f;
                let next = place_piece(st, c, t, r, f);
                assert forall|cc: int, i: int| 0 <= cc < 2 && #[trigger] has_bit(next.2[cc], i) implies 0 <= i < 64 && next.0[i] is Some by {
                    if cc == c.idx() {
                        lemma_has_bit_or_bit(st.2[cc], j, i);
                    }
                }
                lemma_place_atoms_consistent(next, atoms.drop_first(), r, f + 1);
            },
        }
    }
}

proof fn lemma_place_rows_consistent(st: Placement, rows: Seq<Seq<FENAtom>>, r: int)
    requires
        placement_consistent(st),
        rows_fit(rows, r),
    ensures
        placement_consistent(place_rows(st, rows, r)),
    decreases rows.len(),
{
    if rows.len() > 0 {
        lemma_place_atoms_consistent(st, rows[0], r, 0);
        lemma_place_rows_consistent(place_atoms(st, rows[0], r, 0), rows.drop_first(), r + 1);
    }
}

/// A board read from a FEN string lists each piece on its own square, and
/// lists a piece on every square its side's bitboard holds: the board meets
/// the first two conditions of the move generator's domain.
pub proof fn lemma_from_fen_consistent(b: Board, fen: Seq<char>)
    requires
        fen_in_domain(fen),
        fen_error(fen) is None,
        board_matches_fen(b, fen),
    ensures
        forall|i: int| 0 <= i < 64 ==> (#[trigger] b.piece_list@[i] matches Some(p) ==> p.position.0 == bit(i)),
        forall|i: int| 0 <= i < 64 && #[trigger] has_bit(b.occ(b.current), i) ==> b.piece_list@[i] is Some,
{
    let rows = fen_rows(fen)->0;
    let e = empty_placement();
    lemma_zero_bits();
    assert forall|c: int, i: int| 0 <= c < 2 && #[trigger] has_bit(e.2[c], i) implies 0 <= i < 64 && e.0[i] is Some by {
        assert(!has_bit(0u64, i));
    }
    lemma_place_rows_consistent(e, rows, 0);
    let st = place_rows(e, rows, 0);
    assert forall|i: int| 0 <= i < 64 && #[trigger] has_bit(b.occ(b.current), i) implies b.piece_list@[i] is Some by {
        assert(b.occupied_squares@.map_values(|x: Bitboard| x.0)[b.current.idx()] == b.occ(b.current));
        assert(has_bit(st.2[b.current.idx()], i));
    }
}

/// Taking a piece that is not `side`'s off the list leaves what `side`
/// attacks unchanged.
proof fn lemma_attack_union_without(
    list: Seq<Option<Piece>>,
    side: Color,
    ours: u64,
    theirs: u64,
    k: int,
    n: int,
)
    requires
        0 <= k < list.len(),
        n <= list.len(),
        !(list[k] is Some && list[k]->0.color == side),
    ensures
        attack_union(list.update(k, None), side, ours, theirs, n) == attack_union(list, side, ours, theirs, n),
    decreases n,
{
    if n > 0 {
        lemma_attack_union_without(list, side, ours, theirs, k, n - 1);
    }
}

/// The squares `side`'s king may not step to are the squares the other side
/// attacks once that king is taken off the board: with the king on square
/// index `k` (and no other king of `side`), they are what the other side's
/// pieces attack when square `k` is empty, the other side's own squares
/// included.
pub proof fn lemma_king_danger_lifts_king(b: Board, side: Color, k: int)
    requires
        0 <= k < 64,
        b.spec_bb(PieceType::King, side) == bit(k),
        b.piece_list@[k] is Some && b.piece_list@[k]->0.color == side,
    ensures
        b.spec_king_danger(side) == attack_union(
            b.piece_list@.update(k, None),
            side.spec_opp(),
            b.occ(side.spec_opp()),
            b.occ(side) & !bit(k),
            64,
        ),
{
    lemma_attack_union_without(
        b.piece_list@,
        side.spec_opp(),
        b.occ(side.spec_opp()),
        b.occ(side) & !bit(k),
        k,
        64,
    );
}

/// A ray along one of `dirs` that reaches one of `sliders` and holds
/// exactly one square of `own` is among the rays `pin_rays` finds.
proof fn lemma_pin_rays_has(king: int, dirs: Seq<Step>, blockers: u64, sliders: u64, own: u64, j: int)
    requires
        0 <= j < dirs.len(),
        ray(king, dirs[j].delta_rank as int, dirs[j].delta_file as int, 7, blockers) & sliders != 0,
        is_single(ray(king, dirs[j].delta_rank as int, dirs[j].delta_file as int, 7, blockers) & own),
    ensures
        pin_rays(king, dirs, blockers, sliders, own).contains(
            ray(king, dirs[j].delta_rank as int, dirs[j].delta_file as int, 7, blockers),
        ),
    decreases dirs.len(),
{
    let prev = pin_rays(king, dirs.drop_last(), blockers, sliders, own);
    let r = ray(king, dirs[j].delta_rank as int, dirs[j].delta_file as int, 7, blockers);
    if j == dirs.len() - 1 {
        assert(pin_rays(king, dirs, blockers, sliders, own)[prev.len() as int] == r);
    } else {
        assert(dirs.drop_last()[j] == dirs[j]);
        lemma_pin_rays_has(king, dirs.drop_last(), blockers, sliders, own, j);
        let i = choose|i: int| 0 <= i < prev.len() && prev[i] == r;
        assert(pin_rays(king, dirs, blockers, sliders, own)[i] == r);
    }
}

/// Pins are found along all eight directions from the king: for a step
/// (`dr`, `df`) of one square in any direction, the ray from `side`'s king
/// along it, up to and including the first piece of the other side, is a
/// pin ray of `side` whenever it reaches a slider of the other side that
/// moves along it (a rook or queen when the step is along a rank or file, a
/// bishop or queen when it is diagonal) and holds exactly one of `side`'s
/// pieces.
pub proof fn lemma_pinrays_complete(b: Board, side: Color, dr: int, df: int)
    requires
        -1 <= dr <= 1,
        -1 <= df <= 1,
        dr != 0 || df != 0,
    ensures
        ({
            let opp = side.spec_opp();
            let r = ray(tz(b.spec_bb(PieceType::King, side)), dr, df, 7, b.occ(opp));
            let sliders = if dr == 0 || df == 0 {
                b.spec_bb(PieceType::Rook, opp) | b.spec_bb(PieceType::Queen, opp)
            } else {
                b.spec_bb(PieceType::Bishop, opp) | b.spec_bb(PieceType::Queen, opp)
            };
            r & sliders != 0 && is_single(r & b.occ(side)) ==> b.spec_pinrays(side).contains(r)
        }),
{
    let opp = side.spec_opp();
    let king = tz(b.spec_bb(PieceType::King, side));
    let blockers = b.occ(opp);
    let r = ray(king, dr, df, 7, blockers);
    let diag = b.spec_bb(PieceType::Bishop, opp) | b.spec_bb(PieceType::Queen, opp);
    let ortho = b.spec_bb(PieceType::Rook, opp) | b.spec_bb(PieceType::Queen, opp);
    let a = pin_rays(king, Step::spec_ortho_dirs(), blockers, ortho, b.occ(side));
    let d = pin_rays(king, Step::spec_diag_dirs(), blockers, diag, b.occ(side));
    if dr == 0 || df == 0 {
        if r & ortho != 0 && is_single(r & b.occ(side)) {
            let dirs = Step::spec_ortho_dirs();
            let j: int = if dr == 1 {
                0
            } else if dr == -1 {
                1
            } else if df == -1 {
                2
            } else {
                3
            };
            assert(dirs[j].delta_rank as int == dr && dirs[j].delta_file as int == df);
            lemma_pin_rays_has(king, dirs, blockers, ortho, b.occ(side), j);
            let i = choose|i: int| 0 <= i < a.len() && a[i] == r;
            assert((a + d)[i] == r);
        }
    } else {
        if r & diag != 0 && is_single(r & b.occ(side)) {
            let dirs = Step::spec_diag_dirs();
            let j: int = if dr == 1 && df == -1 {
                0
            } else if dr == 1 && df == 1 {
                1
            } else if dr == -1 && df == -1 {
                2
            } else {
                3
            };
            assert(dirs[j].delta_rank as int == dr && dirs[j].delta_file as int == df);
            lemma_pin_rays_has(king, dirs, blockers, diag, b.occ(side), j);
            let i = choose|i: int| 0 <= i < d.len() && d[i] == r;
            assert((a + d)[a.len() + i] == r);
        }
    }
}

} // verus!
