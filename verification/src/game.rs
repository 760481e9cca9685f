//! A game between two players at one terminal: the board, and the squares
//! highlighted while a piece is being moved.
use vstd::prelude::*;
use crate::bitboard::{Bitboard, bit};
use crate::board::{Board, Piece, Square};
use crate::movegen::moves::Move;

verus! {

/// The board being played on, and the squares to show brightly (all of them
/// when none is highlighted).
pub struct Game {
    pub board: Board,
    pub highlights: Bitboard,
}

/// Why a square cannot be selected.
#[derive(Debug, PartialEq, Eq, Structural, Clone, Copy)]
pub enum SelectError {
    /// The square holds no piece.
    NoPiece(Square),
    /// The piece on the square belongs to the side not to move.
    OtherPlayer,
}

/// The union of the targets of the moves among the first `n` of `moves`
/// that leave from square index `src`.
pub open spec fn targets_from(moves: Seq<Move>, src: int, n: int) -> u64
    decreases n,
{
    if n <= 0 {
        0u64
    } else if moves[n - 1].spec_src() == src {
        targets_from(moves, src, n - 1) | bit(moves[n - 1].spec_tgt())
    } else {
        targets_from(moves, src, n - 1)
    }
}

/// The index of the first of `moves` from square index `src` to square
/// index `tgt`, searching from index `i`.
pub open spec fn first_move(moves: Seq<Move>, src: int, tgt: int, i: int) -> Option<int>
    decreases moves.len() - i,
{
    if i < 0 || i >= moves.len() {
        None
    } else if moves[i].spec_src() == src && moves[i].spec_tgt() == tgt {
        Some(i)
    } else {
        first_move(moves, src, tgt, i + 1)
    }
}

impl Game {
    /// The piece on `square`, when it belongs to the side to move.
    pub fn try_select(&self, square: Square) -> (r: Result<&Piece, SelectError>)
        ensures
            match self.board.piece_list@[square.idx()] {
                None => r == Err::<&Piece, SelectError>(SelectError::NoPiece(square)),
                Some(p) => if p.color != self.board.current {
                    r == Err::<&Piece, SelectError>(SelectError::OtherPlayer)
                } else {
                    r matches Ok(q) && *q == p
                },
            },
    {
        let selected = match self.board.get_at(square) {
            Some(p) => p,
            None => return Err(SelectError::NoPiece(square)),
        };
        if selected.color() != self.board.current {
            return Err(SelectError::OtherPlayer);
        }
        Ok(selected)
    }

    /// Highlight the square of `selected` and the targets of the moves that
    /// leave from `square`.
    pub fn highlight_moves(&mut self, selected: &Piece, square: Square, moves: &Vec<Move>)
        ensures
            final(self).board == old(self).board,
            final(self).highlights.0 == selected.position.0 | targets_from(moves@, square.idx(), moves@.len() as int),
    {
        let mut targets: u64 = 0;
        let mut i: usize = 0;
        while i < moves.len()
            invariant
                i <= moves@.len(),
                targets == targets_from(moves@, square.idx(), i as int),
            decreases moves@.len() - i,
        {
            let mv = moves[i];
            if mv.src() == square {
                targets = targets | Bitboard::from_square(mv.tgt()).0;
            }
            i = i + 1;
        }
        self.highlights = Bitboard(selected.position.0 | targets);
    }

    /// Show every square brightly again.
    pub fn clear_highlights(&mut self)
        ensures
            final(self).board == old(self).board,
            final(self).highlights.0 == 0,
    {
        self.highlights = Bitboard(0);
    }
}

/// The first of `moves` from `src` to `tgt`, if any.
pub fn find_move(moves: &Vec<Move>, src: Square, tgt: Square) -> (r: Option<Move>)
    ensures
        match first_move(moves@, src.idx(), tgt.idx(), 0) {
            Some(i) => r == Some(moves@[i]),
            None => r is None,
        },
{
    let mut i: usize = 0;
    while i < moves.len()
        invariant
            i <= moves@.len(),
            first_move(moves@, src.idx(), tgt.idx(), 0) == first_move(moves@, src.idx(), tgt.idx(), i as int),
        decreases moves@.len() - i,
    {
        let mv = moves[i];
        if mv.src() == src && mv.tgt() == tgt {
            return Some(mv);
        }
        i = i + 1;
    }
    None
}

} // verus!
