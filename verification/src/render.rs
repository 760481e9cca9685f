//! Text renderings of sides, pieces, moves and boards.
use vstd::prelude::*;
use vstd::string::*;
use crate::board::{Board, Color, Piece, PieceType, Square, file_char, rank_char};
use crate::movegen::moves::Move;
use crate::bitboard::{Bitboard, has_bit};
use crate::terminal::{Canvas, Paint, Segment, writes_all};
use crate::game::Game;

verus! {

/// The letter of a piece: `P`, `N`, `B`, `R`, `Q` or `K`, upper case for
/// White and lower case for Black.
pub open spec fn piece_letter(color: Color, ptype: PieceType) -> char {
    match (color, ptype) {
        (Color::White, PieceType::Pawn) => 'P',
        (Color::White, PieceType::Rook) => 'R',
        (Color::White, PieceType::Knight) => 'N',
        (Color::White, PieceType::Bishop) => 'B',
        (Color::White, PieceType::Queen) => 'Q',
        (Color::White, PieceType::King) => 'K',
        (Color::Black, PieceType::Pawn) => 'p',
        (Color::Black, PieceType::Rook) => 'r',
        (Color::Black, PieceType::Knight) => 'n',
        (Color::Black, PieceType::Bishop) => 'b',
        (Color::Black, PieceType::Queen) => 'q',
        (Color::Black, PieceType::King) => 'k',
    }
}

/// The name of a side: `White` or `Black`.
pub open spec fn color_text(color: Color) -> Seq<char> {
    match color {
        Color::White => seq!['W', 'h', 'i', 't', 'e'],
        Color::Black => seq!['B', 'l', 'a', 'c', 'k'],
    }
}

/// The letter of a piece, as a one-letter string.
fn letter_str(color: Color, ptype: PieceType) -> (r: &'static str)
    ensures
        r@ == seq![piece_letter(color, ptype)],
{
    match (color, ptype) {
        (Color::White, PieceType::Pawn) => {
            proof { reveal_strlit("P"); }
            "P"
        },
        (Color::White, PieceType::Rook) => {
            proof { reveal_strlit("R"); }
            "R"
        },
        (Color::White, PieceType::Knight) => {
            proof { reveal_strlit("N"); }
            "N"
        },
        (Color::White, PieceType::Bishop) => {
            proof { reveal_strlit("B"); }
            "B"
        },
        (Color::White, PieceType::Queen) => {
            proof { reveal_strlit("Q"); }
            "Q"
        },
        (Color::White, PieceType::King) => {
            proof { reveal_strlit("K"); }
            "K"
        },
        (Color::Black, PieceType::Pawn) => {
            proof { reveal_strlit("p"); }
            "p"
        },
        (Color::Black, PieceType::Rook) => {
            proof { reveal_strlit("r"); }
            "r"
        },
        (Color::Black, PieceType::Knight) => {
            proof { reveal_strlit("n"); }
            "n"
        },
        (Color::Black, PieceType::Bishop) => {
            proof { reveal_strlit("b"); }
            "b"
        },
        (Color::Black, PieceType::Queen) => {
            proof { reveal_strlit("q"); }
            "q"
        },
        (Color::Black, PieceType::King) => {
            proof { reveal_strlit("k"); }
            "k"
        },
    }
}

impl Piece {
    /// The letter of the piece.
    pub fn to_string(&self) -> (r: String)
        ensures
            r@ == seq![piece_letter(self.color, self.piece_type)],
    {
        String::from_str(letter_str(self.color, self.piece_type))
    }
}

impl Color {
    /// The name of the side.
    pub fn to_string(&self) -> (r: String)
        ensures
            r@ == color_text(*self),
    {
        match self {
            Color::White => {
                proof { reveal_strlit("White"); }
                String::from_str("White")
            },
            Color::Black => {
                proof { reveal_strlit("Black"); }
                String::from_str("Black")
            },
        }
    }
}

/// The name of the square with index `i`, such as `e4`.
pub open spec fn square_text(i: int) -> Seq<char> {
    seq![file_char(i % 8), rank_char(i / 8)]
}

/// A move as its source and target squares, followed by ` (Castle)` for a
/// castle.
pub open spec fn move_text(m: Move) -> Seq<char> {
    square_text(m.spec_src()) + square_text(m.spec_tgt()) + if m.spec_is_castle() {
        seq![' ', '(', 'C', 'a', 's', 't', 'l', 'e', ')']
    } else {
        Seq::<char>::empty()
    }
}

impl Move {
    /// The move as text, such as `e2e4`, or `e1g1 (Castle)` for a castle.
    pub fn to_string(&self) -> (r: String)
        ensures
            r@ == move_text(*self),
    {
        let mut s = String::from_str(self.src().to_alg());
        s.append(self.tgt().to_alg());
        if self.is_castle() {
            proof { reveal_strlit(" (Castle)"); }
            s.append(" (Castle)");
        } else {
            assert(s@ + Seq::<char>::empty() =~= s@);
        }
        s
    }
}

/// The label of a rank, `1` to `8`, as a string.
fn rank_str(rank: usize) -> (r: &'static str)
    requires
        rank < 8,
    ensures
        r@ == seq![rank_char(rank as int)],
{
    match rank {
        0 => {
            proof { reveal_strlit("1"); }
            "1"
        },
        1 => {
            proof { reveal_strlit("2"); }
            "2"
        },
        2 => {
            proof { reveal_strlit("3"); }
            "3"
        },
        3 => {
            proof { reveal_strlit("4"); }
            "4"
        },
        4 => {
            proof { reveal_strlit("5"); }
            "5"
        },
        5 => {
            proof { reveal_strlit("6"); }
            "6"
        },
        6 => {
            proof { reveal_strlit("7"); }
            "7"
        },
        _ => {
            proof { reveal_strlit("8"); }
            "8"
        },
    }
}

/// The file letters that frame a board.
pub open spec fn files_text() -> Seq<char> {
    seq![' ', ' ', 'a', ' ', 'b', ' ', 'c', ' ', 'd', ' ', 'e', ' ', 'f', ' ', 'g', ' ', 'h', ' ']
}

/// A square of the board: the letter of its piece, or `.` when empty.
pub open spec fn cell_text(p: Option<Piece>) -> Seq<char> {
    match p {
        Some(q) => seq![piece_letter(q.color, q.piece_type)],
        None => seq!['.'],
    }
}

/// The first `n` squares of `rank`, each followed by a space.
pub open spec fn cells_text(list: Seq<Option<Piece>>, rank: int, n: int) -> Seq<char>
    decreases n,
{
    if n <= 0 {
        Seq::<char>::empty()
    } else {
        cells_text(list, rank, n - 1) + cell_text(list[8 * rank + n - 1]) + seq![' ']
    }
}

/// A rank of the board between its labels.
pub open spec fn rank_text(list: Seq<Option<Piece>>, rank: int) -> Seq<char> {
    seq![rank_char(rank), ' '] + cells_text(list, rank, 8) + seq![rank_char(rank)]
}

/// The top `n` ranks, from the eighth down, each after a line break.
pub open spec fn ranks_text(list: Seq<Option<Piece>>, n: int) -> Seq<char>
    decreases n,
{
    if n <= 0 {
        Seq::<char>::empty()
    } else {
        ranks_text(list, n - 1) + seq!['\n'] + rank_text(list, 8 - n)
    }
}

/// The board as lines of text: the file letters, the ranks from the eighth
/// down to the first, and the file letters again.
pub open spec fn board_text(list: Seq<Option<Piece>>) -> Seq<char> {
    files_text() + ranks_text(list, 8) + seq!['\n'] + files_text()
}

impl Board {
    /// The text of one rank.
    fn rank_string(&self, rank: usize) -> (r: String)
        requires
            rank < 8,
        ensures
            r@ == rank_text(self.piece_list@, rank as int),
    {
        let label = rank_str(rank);
        let mut s = String::from_str(label);
        proof { reveal_strlit(" "); }
        s.append(" ");
        let ghost head = s@;
        let mut file: usize = 0;
        while file < 8
            invariant
                rank < 8,
                file <= 8,
                head == seq![rank_char(rank as int), ' '],
                s@ == head + cells_text(self.piece_list@, rank as int, file as int),
            decreases 8 - file,
        {
            let ghost before = s@;
            match self.get_at(Square::new(rank, file)) {
                Some(p) => {
                    s.append(letter_str(p.color, p.piece_type));
                },
                None => {
                    proof { reveal_strlit("."); }
                    s.append(".");
                },
            }
            proof { reveal_strlit(" "); }
            s.append(" ");
            proof {
                assert(s@ =~= before + cell_text(self.piece_list@[8 * rank + file]) + seq![' ']);
            }
            file = file + 1;
        }
        s.append(label);
        s
    }

    /// The board as text, rank 8 at the top.
    pub fn to_string(&self) -> (r: String)
        ensures
            r@ == board_text(self.piece_list@),
    {
        proof {
            reveal_strlit("  a b c d e f g h ");
            reveal_strlit("\n");
        }
        let mut s = String::from_str("  a b c d e f g h ");
        let mut k: usize = 0;
        while k < 8
            invariant
                k <= 8,
                s@ == files_text() + ranks_text(self.piece_list@, k as int),
            decreases 8 - k,
        {
            let ghost before = s@;
            s.append("\n");
            let line = self.rank_string(7 - k);
            s.append(line.as_str());
            proof {
                reveal_strlit("\n");
                assert(ranks_text(self.piece_list@, k + 1) == ranks_text(self.piece_list@, k as int) + seq!['\n']
                    + rank_text(self.piece_list@, 7 - k));
                assert(s@ =~= files_text() + ranks_text(self.piece_list@, k + 1));
            }
            k = k + 1;
        }
        s.append("\n");
        s.append("  a b c d e f g h ");
        s
    }
}

/// The segment of square index `i` in the drawing of the bitboard `bb`: a
/// cross on its squares, a dimmed dot elsewhere.
pub open spec fn bitboard_square_segment(bb: u64, i: int) -> Segment {
    if has_bit(bb, i) {
        (seq!['x', ' '], Paint::Plain)
    } else {
        (seq!['.', ' '], Paint::BrightBlack)
    }
}

/// The segments of one rank of the drawing of `bb`, and its line break.
pub open spec fn bitboard_rank_segments(bb: u64, rank: int) -> Seq<Segment> {
    Seq::new(8, |f: int| bitboard_square_segment(bb, 8 * rank + f)).push((seq!['\n'], Paint::Plain))
}

/// The segments of the top `n` ranks of the drawing of `bb`, from the
/// eighth down.
pub open spec fn bitboard_segments(bb: u64, n: int) -> Seq<Segment>
    decreases n,
{
    if n <= 0 {
        Seq::<Segment>::empty()
    } else {
        bitboard_segments(bb, n - 1) + bitboard_rank_segments(bb, 8 - n)
    }
}

impl Bitboard {
    /// The bitboard drawn as a grid, rank 8 at the top: a cross on each of
    /// its squares, a dimmed dot on the others.
    pub fn to_string(&self) -> (r: String)
        ensures
            writes_all(r@, bitboard_segments(self.0, 8)),
    {
        proof {
            reveal_strlit("x ");
            reveal_strlit(". ");
            reveal_strlit("\n");
            assert("x "@ =~= seq!['x', ' ']);
            assert(". "@ =~= seq!['.', ' ']);
            assert("\n"@ =~= seq!['\n']);
        }
        let mut canvas = Canvas::new();
        let mut k: usize = 0;
        while k < 8
            invariant
                k <= 8,
                canvas.wf(),
                "x "@ == seq!['x', ' '],
                ". "@ == seq!['.', ' '],
                "\n"@ == seq!['\n'],
                canvas.segments() == bitboard_segments(self.0, k as int),
            decreases 8 - k,
        {
            let rank = 7 - k;
            let ghost before = canvas.segments();
            let mut file: usize = 0;
            while file < 8
                invariant
                    k < 8,
                    rank == 7 - k,
                    file <= 8,
                    canvas.wf(),
                    "x "@ == seq!['x', ' '],
                    ". "@ == seq!['.', ' '],
                    canvas.segments() == before + Seq::new(file as nat, |f: int| bitboard_square_segment(self.0, 8 * rank + f)),
                decreases 8 - file,
            {
                let i = (8 * rank + file) as u64;
                let x = self.0;
                if (x >> i) & 1u64 == 1u64 {
                    canvas.paint("x ", Paint::Plain);
                } else {
                    canvas.paint(". ", Paint::BrightBlack);
                }
                proof {
                    assert(before + Seq::new((file + 1) as nat, |f: int| bitboard_square_segment(self.0, 8 * rank + f))
                        =~= (before + Seq::new(file as nat, |f: int| bitboard_square_segment(self.0, 8 * rank + f))).push(
                        bitboard_square_segment(self.0, 8 * rank + file),
                    ));
                }
                file = file + 1;
            }
            canvas.paint("\n", Paint::Plain);
            proof {
                assert(canvas.segments() =~= bitboard_segments(self.0, k + 1));
            }
            k = k + 1;
        }
        canvas.finish()
    }
}

/// The paint of the square with index `i` when `highlights` are shown:
/// plain when nothing is highlighted or the square is, dimmed otherwise.
pub open spec fn highlight_paint(highlights: u64, i: int) -> Paint {
    if highlights == 0 || has_bit(highlights, i) {
        Paint::Plain
    } else {
        Paint::BrightBlack
    }
}

/// The segments of the first `n` squares of `rank` in the drawing of a game:
/// each square's text in its paint, then a space.
pub open spec fn game_square_segments(g: Game, rank: int, n: int) -> Seq<Segment>
    decreases n,
{
    if n <= 0 {
        Seq::<Segment>::empty()
    } else {
        game_square_segments(g, rank, n - 1) + seq![
            (cell_text(g.board.piece_list@[8 * rank + n - 1]), highlight_paint(g.highlights.0, 8 * rank + n - 1)),
            (seq![' '], Paint::Plain),
        ]
    }
}

/// The segments of one rank in the drawing of a game: its label, a space,
/// its squares, its label again, and a line break.
pub open spec fn game_rank_segments(g: Game, rank: int) -> Seq<Segment> {
    seq![(seq![rank_char(rank)], Paint::BrightBlue), (seq![' '], Paint::Plain)] + game_square_segments(g, rank, 8)
        + seq![(seq![rank_char(rank)], Paint::BrightBlue), (seq!['\n'], Paint::Plain)]
}

/// The segments of the top `n` ranks in the drawing of a game.
pub open spec fn game_ranks_segments(g: Game, n: int) -> Seq<Segment>
    decreases n,
{
    if n <= 0 {
        Seq::<Segment>::empty()
    } else {
        game_ranks_segments(g, n - 1) + game_rank_segments(g, 8 - n)
    }
}

/// The file letters above and below the drawing of a game, with a line
/// break.
pub open spec fn game_files_segment() -> Segment {
    (files_text().push('\n'), Paint::BrightBlue)
}

/// The segments of the drawing of a game.
pub open spec fn game_segments(g: Game) -> Seq<Segment> {
    seq![game_files_segment()] + game_ranks_segments(g, 8) + seq![game_files_segment()]
}

impl Game {
    /// The squares of one rank of the drawing.
    fn paint_rank(&self, rank: usize, canvas: &mut Canvas)
        requires
            rank < 8,
            old(canvas).wf(),
        ensures
            final(canvas).wf(),
            final(canvas).segments() == old(canvas).segments() + game_square_segments(*self, rank as int, 8),
    {
        proof {
            reveal_strlit(" ");
            reveal_strlit(".");
            assert(" "@ =~= seq![' ']);
            assert("."@ =~= seq!['.']);
        }
        let ghost before = canvas.segments();
        let mut file: usize = 0;
        while file < 8
            invariant
                rank < 8,
                file <= 8,
                canvas.wf(),
                " "@ == seq![' '],
                "."@ == seq!['.'],
                canvas.segments() == before + game_square_segments(*self, rank as int, file as int),
            decreases 8 - file,
        {
            let i = 8 * rank + file;
            let h = self.highlights.0;
            let iu = i as u64;
            let paint = if h == 0 || (h >> iu) & 1u64 == 1u64 {
                Paint::Plain
            } else {
                Paint::BrightBlack
            };
            match self.board.get_at(Square::new(rank, file)) {
                Some(p) => canvas.paint(letter_str(p.color, p.piece_type), paint),
                None => canvas.paint(".", paint),
            }
            canvas.paint(" ", Paint::Plain);
            proof {
                assert(canvas.segments() =~= before + game_square_segments(*self, rank as int, file + 1));
            }
            file = file + 1;
        }
    }

    /// The game drawn for the terminal: the file letters, the ranks from the
    /// eighth down between their labels, and the file letters again; the
    /// labels in bright blue, and, while squares are highlighted, the other
    /// squares dimmed.
    pub fn to_string(&self) -> (r: String)
        ensures
            writes_all(r@, game_segments(*self)),
    {
        proof {
            reveal_strlit("  a b c d e f g h \n");
            reveal_strlit(" ");
            reveal_strlit("\n");
            assert("  a b c d e f g h \n"@ =~= files_text().push('\n'));
            assert(" "@ =~= seq![' ']);
            assert("\n"@ =~= seq!['\n']);
        }
        let mut canvas = Canvas::new();
        canvas.paint("  a b c d e f g h \n", Paint::BrightBlue);
        let mut k: usize = 0;
        while k < 8
            invariant
                k <= 8,
                canvas.wf(),
                " "@ == seq![' '],
                "\n"@ == seq!['\n'],
                canvas.segments() == seq![game_files_segment()] + game_ranks_segments(*self, k as int),
            decreases 8 - k,
        {
            let rank = 7 - k;
            let label = rank_str(rank);
            let ghost before = canvas.segments();
            canvas.paint(label, Paint::BrightBlue);
            canvas.paint(" ", Paint::Plain);
            self.paint_rank(rank, &mut canvas);
            canvas.paint(label, Paint::BrightBlue);
            canvas.paint("\n", Paint::Plain);
            proof {
                assert(canvas.segments() =~= before + game_rank_segments(*self, rank as int));
                assert(canvas.segments() =~= seq![game_files_segment()] + game_ranks_segments(*self, k + 1));
            }
            k = k + 1;
        }
        canvas.paint("  a b c d e f g h \n", Paint::BrightBlue);
        proof {
            assert(canvas.segments() =~= game_segments(*self));
        }
        canvas.finish()
    }
}

} // verus!
