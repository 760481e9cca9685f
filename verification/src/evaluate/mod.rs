//! Tapered evaluation scores: a midgame and an endgame score, blended by the
//! phase of the game.
//!
//! The evaluation terms (material, mobility, king safety and the rest) are not
//! here: they read attack tables and pins of the engine's `chess` crate, which
//! is not available.
use vstd::prelude::*;

pub mod util;
pub mod accumulator;
pub mod lookups;
pub mod pretty_print;

verus! {

/// Division rounding towards zero, as `/` does on Rust's signed integers.
pub open spec fn trunc_div(a: int, b: int) -> int {
    if a >= 0 {
        a / b
    } else {
        -((-a) / b)
    }
}

/// A tapered score: the game phase (0 for a bare endgame, 24 for the
/// opening), and the midgame and endgame scores.
#[derive(Debug, Copy, Clone, PartialEq, Eq, Structural)]
pub struct Score {
    pub game_phase: i32,
    pub mg_score: i32,
    pub eg_score: i32,
}

impl Score {
    pub const MIN: i32 = i32::MIN;
    pub const MAX: i32 = i32::MAX;

    /// The score of an empty board.
    pub fn default() -> (r: Self)
        ensures
            r.game_phase == 0,
            r.mg_score == 0,
            r.eg_score == 0,
    {
        Self { game_phase: 0, mg_score: 0, eg_score: 0 }
    }

    /// The score with the midgame score negated; the endgame score is set
    /// to the negated midgame score as well.
    pub fn flipped(&self) -> (r: Self)
        requires
            self.mg_score != i32::MIN,
        ensures
            r.game_phase == self.game_phase,
            r.mg_score == -self.mg_score,
            r.eg_score == -self.mg_score,
    {
        Self { game_phase: self.game_phase, mg_score: -self.mg_score, eg_score: -self.mg_score }
    }

    /// The weight of the midgame score: the game phase.
    pub fn mg_weight(&self) -> (r: i32)
        ensures
            r == self.game_phase,
    {
        self.game_phase
    }

    /// The weight of the endgame score: 24 less the game phase.
    pub fn eg_weight(&self) -> (r: i32)
        requires
            24 - self.game_phase <= i32::MAX,
        ensures
            r == 24 - self.game_phase,
    {
        24 - self.game_phase
    }

    /// The sum of both scores, each weighted by its weight, divided by 24
    /// (rounding towards zero).
    pub open spec fn spec_total(self) -> int {
        trunc_div(
            self.mg_score * self.game_phase + self.eg_score * (24 - self.game_phase),
            24,
        )
    }

    /// The blended score.
    pub fn total(&self) -> (r: i32)
        requires
            24 - self.game_phase <= i32::MAX,
            i32::MIN <= self.mg_score * self.game_phase <= i32::MAX,
            i32::MIN <= self.eg_score * (24 - self.game_phase) <= i32::MAX,
            i32::MIN <= self.mg_score * self.game_phase + self.eg_score * (24 - self.game_phase)
                <= i32::MAX,
        ensures
            r == self.spec_total(),
    {
        (self.mg_score * self.mg_weight() + self.eg_score * self.eg_weight()) / 24
    }
}

} // verus!
