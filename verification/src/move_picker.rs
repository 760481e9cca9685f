//! The stages in which moves are ordered and handed to the search.
//!
//! The picker that walks these stages is not here: it generates moves and
//! scores captures by static exchange through the engine's `chess` crate,
//! which is not available.
use vstd::prelude::*;

verus! {

/// The stages of move ordering
#[derive(Debug, PartialEq, Eq, Structural, Copy, Clone)]
pub enum Stage {
    TTMove,
    GenerateTacticals,
    ScoreTacticals,
    GoodTacticals,
    GenerateQuiets,
    ScoreQuiets,
    Quiets,
    BadTacticals,
    Done,
}

} // verus!
