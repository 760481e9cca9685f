//! Drawing the board of the evaluation printout on a terminal.
//!
//! The printout's rows of per-square scores are not here: they come from the
//! evaluation terms, which rest on the engine's `chess` crate, which is not
//! available.
use vstd::prelude::*;
use crate::terminal::{Canvas, Paint, Segment, writes_all};

verus! {

/// The seven spaces of one square of the drawing.
pub open spec fn cell_spaces() -> Seq<char> {
    seq![' ', ' ', ' ', ' ', ' ', ' ', ' ']
}

/// The paint of square `i` of a line of rank `rank`: squares alternate,
/// white first on even ranks and black first on odd ones.
pub open spec fn square_paint(rank: int, i: int) -> Paint {
    if (rank + i) % 2 == 0 {
        Paint::OnWhite
    } else {
        Paint::OnBlack
    }
}

/// The first `n` squares of a line of rank `rank`.
pub open spec fn square_segments(rank: int, n: int) -> Seq<Segment> {
    Seq::new(n as nat, |i: int| (cell_spaces(), square_paint(rank, i)))
}

/// The segments of a blank line: the left border, eight squares, and the
/// right border.
pub open spec fn blank_line_segments(rank: int) -> Seq<Segment> {
    seq![(seq![' ', ' ', '║'], Paint::Plain)] + square_segments(rank, 8) + seq![(seq!['║', ' '], Paint::Plain)]
}

/// A line of the board drawing without text: the left border, eight
/// squares alternating in colour, white first on even ranks and black first
/// on odd ones, and the right border.
pub fn blank_line(rank: usize) -> (r: String)
    ensures
        writes_all(r@, blank_line_segments(rank as int)),
{
    proof {
        reveal_strlit("  ║");
        reveal_strlit("       ");
        reveal_strlit("║ ");
        assert("  ║"@ =~= seq![' ', ' ', '║']);
        assert("       "@ =~= cell_spaces());
        assert("║ "@ =~= seq!['║', ' ']);
    }
    let mut canvas = Canvas::new();
    canvas.paint("  ║", Paint::Plain);
    let ghost head = canvas.segments();
    let mut i: usize = 0;
    while i < 8
        invariant
            i <= 8,
            canvas.wf(),
            "       "@ == cell_spaces(),
            head == seq![(seq![' ', ' ', '║'], Paint::Plain)],
            canvas.segments() == head + square_segments(rank as int, i as int),
        decreases 8 - i,
    {
        let paint = if rank % 2 == i % 2 {
            Paint::OnWhite
        } else {
            Paint::OnBlack
        };
        canvas.paint("       ", paint);
        proof {
            assert(paint == square_paint(rank as int, i as int));
            assert(head + square_segments(rank as int, i + 1) =~= (head + square_segments(rank as int, i as int)).push(
                (cell_spaces(), paint),
            ));
        }
        i = i + 1;
    }
    canvas.paint("║ ", Paint::Plain);
    proof {
        assert(canvas.segments() =~= blank_line_segments(rank as int));
    }
    canvas.finish()
}

} // verus!
