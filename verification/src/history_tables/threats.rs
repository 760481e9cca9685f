//! Indexing history by whether a move leaves or enters a threatened square.
use vstd::prelude::*;
use crate::bitboard::{Bitboard, bit};
use crate::movegen::moves::Move;

verus! {

/// Whether a move's source and target squares are threatened.
#[derive(Copy, Clone, Debug, PartialEq, Eq, Structural)]
pub struct ThreatIndex {
    from_threat: usize,
    to_threat: usize,
}

impl ThreatIndex {
    pub closed spec fn spec_from(self) -> usize {
        self.from_threat
    }

    pub closed spec fn spec_to(self) -> usize {
        self.to_threat
    }

    /// The index of `mv` given the squares in `threats`: 1 for a threatened
    /// source or target square, 0 otherwise.
    pub fn new(threats: Bitboard, mv: Move) -> (r: Self)
        ensures
            r.spec_from() == (if threats.0 & bit(mv.spec_src()) == bit(mv.spec_src()) { 1usize } else { 0usize }),
            r.spec_to() == (if threats.0 & bit(mv.spec_tgt()) == bit(mv.spec_tgt()) { 1usize } else { 0usize }),
    {
        Self {
            from_threat: if threats.contains(Bitboard::from_square(mv.src())) { 1 } else { 0 },
            to_threat: if threats.contains(Bitboard::from_square(mv.tgt())) { 1 } else { 0 },
        }
    }

    /// Whether the source square is threatened, as a table index.
    pub fn from_threat(&self) -> (r: usize)
        ensures
            r == self.spec_from(),
    {
        self.from_threat
    }

    /// Whether the target square is threatened, as a table index.
    pub fn to_threat(&self) -> (r: usize)
        ensures
            r == self.spec_to(),
    {
        self.to_threat
    }
}

} // verus!
