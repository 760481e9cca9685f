//! Zobrist hashes of positions.
use vstd::prelude::*;

verus! {

/// A 64-bit Zobrist hash of a position.
#[derive(Debug, Copy, Clone, PartialEq, Eq, Structural, Default)]
pub struct ZHash(pub u64);

impl ZHash {
    /// The hash that marks an empty table slot.
    pub fn null() -> (r: ZHash)
        ensures
            r.0 == 0,
    {
        ZHash(0)
    }
}

} // verus!
