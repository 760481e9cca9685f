//! Correction history
//!
//! Correction history keeps track of how well the static eval of a position
//! matched the returned search score. The table is indexed by pawn hash, so
//! its entries are shared across the many positions with the same pawn
//! structure.
//!
//! Each entry keeps a running average: a weighted sum of the current value
//! and the newly provided delta, where the new delta gets more weight when it
//! came from a deeper search.
use vstd::prelude::*;
use crate::board::Color;
use crate::evaluate::trunc_div;
use crate::zobrist::ZHash;

verus! {

/// The granularity scale of the running average weighting.
pub const GRAIN: i32 = 256;

/// The weight scale used for lerping (1 -> MAX_WEIGHT)
pub const MAX_WEIGHT: i32 = 256;

/// The maximum value stored in a CorrHistEntry: entries are clamped to lie
/// between -MAX_VALUE and MAX_VALUE.
pub const MAX_VALUE: i32 = 8192;

/// A running average of how far search scores were from the static eval,
/// scaled by `GRAIN`.
#[derive(Debug, Copy, Clone, PartialEq, Eq, Structural, Default)]
pub struct CorrHistEntry(pub i32);

/// `x` clamped to lie between `lo` and `hi`.
pub open spec fn clamp(x: int, lo: int, hi: int) -> int {
    if x < lo {
        lo
    } else if x > hi {
        hi
    } else {
        x
    }
}

impl CorrHistEntry {
    /// The weight of a new delta found by a search of `depth`.
    pub open spec fn new_weight(depth: int) -> int {
        if depth + 1 < 16 {
            depth + 1
        } else {
            16
        }
    }

    /// The value of the entry after recording the delta of `best_score`
    /// over `eval` from a search of `depth`.
    pub open spec fn spec_update(self, best_score: int, eval: int, depth: int) -> int {
        let w = Self::new_weight(depth);
        clamp(trunc_div(self.0 * (256 - w) + (best_score - eval) * 256 * w, 256), -8192, 8192)
    }

    /// Correct the provided eval score with the value stored in the entry
    pub fn correct(&self, eval: i32) -> (r: i32)
        requires
            i32::MIN <= eval + trunc_div(self.0 as int, 256) <= i32::MAX,
        ensures
            r == eval + trunc_div(self.0 as int, 256),
    {
        eval + self.0 / GRAIN
    }

    /// Update the entry with a given eval score delta
    ///
    /// Modify the old value to be a weighted sum of the old value and the
    /// new delta of the best score and static eval.
    ///
    /// We artificially grow the diff by [GRAIN], and undo this scaling when
    /// applying the correction. This means there is a granularity to the
    /// mixing.
    pub fn update(&mut self, best_score: i32, eval: i32, depth: usize)
        requires
            depth < usize::MAX,
            i32::MIN <= best_score - eval <= i32::MAX,
            i32::MIN <= (best_score - eval) * 256 <= i32::MAX,
            i32::MIN <= old(self).0 * (256 - Self::new_weight(depth as int)) <= i32::MAX,
            i32::MIN <= (best_score - eval) * 256 * Self::new_weight(depth as int) <= i32::MAX,
            i32::MIN <= old(self).0 * (256 - Self::new_weight(depth as int)) + (best_score - eval) * 256
                * Self::new_weight(depth as int) <= i32::MAX,
        ensures
            final(self).0 == old(self).spec_update(best_score as int, eval as int, depth as int),
            -MAX_VALUE <= final(self).0 <= MAX_VALUE,
    {
        // Scale the diff by the grain size
        let scaled_diff = (best_score - eval) * GRAIN;

        // The weights to give to the new and old entry, respectively
        let new_weight = (depth + 1).min(16) as i32;
        let old_weight = MAX_WEIGHT - new_weight;

        // Take the weighted sum of the old value and the new
        let updated = (self.0 * old_weight + scaled_diff * new_weight) / MAX_WEIGHT;

        self.0 = if updated < -MAX_VALUE {
            -MAX_VALUE
        } else if updated > MAX_VALUE {
            MAX_VALUE
        } else {
            updated
        };
    }
}

/// The number of entries per side.
pub const CORR_HIST_SIZE: usize = 16_384;

/// Correction history entries, per side to move and pawn hash.
pub struct CorrHistTable {
    table: Vec<CorrHistEntry>,
}

/// The entry index of `side` and `hash`.
pub open spec fn corr_index(side: Color, hash: ZHash) -> int {
    side.idx() * 16_384 + ((hash.0 as usize) % 16_384) as int
}

impl CorrHistTable {
    /// The entries, White's first.
    pub closed spec fn entries(self) -> Seq<CorrHistEntry> {
        self.table@
    }

    /// A table of zero entries.
    pub fn boxed() -> (r: Box<Self>)
        ensures
            r.entries().len() == 2 * 16_384,
            forall|i: int| 0 <= i < r.entries().len() ==> #[trigger] r.entries()[i].0 == 0,
    {
        let mut table: Vec<CorrHistEntry> = Vec::new();
        let mut i: usize = 0;
        while i < 2 * CORR_HIST_SIZE
            invariant
                i <= 2 * 16_384,
                table@.len() == i,
                forall|j: int| 0 <= j < i ==> #[trigger] table@[j].0 == 0,
            decreases 2 * 16_384 - i,
        {
            table.push(CorrHistEntry(0));
            i = i + 1;
        }
        Box::new(Self { table })
    }

    /// Get a reference to the correction history entry for a given STM and
    /// pawn hash.
    pub fn get(&self, side: Color, hash: ZHash) -> (r: &CorrHistEntry)
        requires
            self.entries().len() == 2 * 16_384,
        ensures
            0 <= corr_index(side, hash) < self.entries().len(),
            *r == self.entries()[corr_index(side, hash)],
    {
        &self.table[side.index() * CORR_HIST_SIZE + (hash.0 as usize) % CORR_HIST_SIZE]
    }

    /// Record a search result in the entry of `side` and `hash`.
    pub fn update(&mut self, side: Color, hash: ZHash, best_score: i32, eval: i32, depth: usize)
        requires
            old(self).entries().len() == 2 * 16_384,
            ({
                let e = old(self).entries()[corr_index(side, hash)];
                &&& depth < usize::MAX
                &&& i32::MIN <= best_score - eval <= i32::MAX
                &&& i32::MIN <= (best_score - eval) * 256 <= i32::MAX
                &&& i32::MIN <= e.0 * (256 - CorrHistEntry::new_weight(depth as int)) <= i32::MAX
                &&& i32::MIN <= (best_score - eval) * 256 * CorrHistEntry::new_weight(depth as int) <= i32::MAX
                &&& i32::MIN <= e.0 * (256 - CorrHistEntry::new_weight(depth as int)) + (best_score - eval)
                    * 256 * CorrHistEntry::new_weight(depth as int) <= i32::MAX
            }),
        ensures
            final(self).entries() == old(self).entries().update(
                corr_index(side, hash),
                CorrHistEntry(old(self).entries()[corr_index(side, hash)].spec_update(best_score as int, eval as int, depth as int) as i32),
            ),
    {
        let idx = side.index() * CORR_HIST_SIZE + (hash.0 as usize) % CORR_HIST_SIZE;
        let mut entry = self.table[idx];
        entry.update(best_score, eval, depth);
        self.table.set(idx, entry);
    }
}

} // verus!
