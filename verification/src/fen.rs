//! The piece-placement part of a FEN string, as a list of ranks of atoms.
use vstd::prelude::*;
use crate::board::{Color, PieceType};
use crate::parse::{fen_board, spec_fen_board};

verus! {

/// The ranks of a FEN piece placement, from the eighth rank down to the
/// first, each as the list of its atoms from file a to file h.
pub struct FEN {
    pub ranks: Vec<Vec<FENAtom>>,
}

/// One item of a FEN rank: a piece, or a run of empty squares.
#[derive(Debug, PartialEq, Eq, Structural, Clone, Copy)]
pub enum FENAtom {
    Piece(Color, PieceType),
    Gap(usize),
}

impl FENAtom {
    /// How many files the atom covers.
    pub open spec fn width(self) -> int {
        match self {
            FENAtom::Piece(_, _) => 1,
            FENAtom::Gap(n) => n as int,
        }
    }
}


/// The error returned when a piece placement cannot be parsed.
#[derive(Debug, PartialEq, Eq, Structural, Clone, Copy)]
pub struct FenParseFailure;

impl FEN {
    /// Parse the piece placement at the start of `input`; what follows it is
    /// ignored.
    pub fn try_from(input: &str) -> (r: Result<FEN, FenParseFailure>)
        ensures
            match spec_fen_board(input@) {
                Ok((_, ranks)) => r matches Ok(fen) && fen.ranks@.map_values(|v: Vec<FENAtom>| v@) == ranks,
                Err(_) => r is Err,
            },
    {
        match fen_board(input) {
            Ok((_, ranks)) => Ok(FEN { ranks }),
            Err(_) => Err(FenParseFailure),
        }
    }
}

} // verus!
