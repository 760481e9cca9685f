//! Sets of piece types whose evaluation terms need recomputing.
use vstd::prelude::*;
use crate::board::PieceType;
use vstd::std_specs::bits::{u8_trailing_zeros, axiom_u8_trailing_zeros};

verus! {

/// A set of piece types, one bit per type.
#[derive(Debug, Default, PartialEq, Eq, Structural, Clone, Copy)]
pub struct PieceTypeSet(pub u8);

impl PieceTypeSet {
    /// The empty set.
    pub fn new() -> (r: Self)
        ensures
            r.0 == 0,
    {
        Self(0)
    }

    /// Add `ptype` to the set.
    pub fn add(&mut self, ptype: PieceType)
        ensures
            final(self).0 == old(self).0 | (1u8 << (ptype.idx() as u8)),
    {
        let shift = ptype.index() as u8;
        self.0 = self.0 | (1u8 << shift);
    }

    /// Take the lowest piece type out of the set and return it; an empty set
    /// yields nothing and stays empty.
    pub fn next(&mut self) -> (r: Option<PieceType>)
        requires
            old(self).0 < 64,
        ensures
            old(self).0 == 0 ==> r is None && *final(self) == *old(self),
            old(self).0 != 0 ==> {
                &&& r matches Some(t) && t.idx() == u8_trailing_zeros(old(self).0) as int
                &&& final(self).0 == old(self).0 & ((old(self).0 - 1) as u8)
            },
    {
        if self.0 == 0 {
            None
        } else {
            let x = self.0;
            let lsb = x.trailing_zeros();
            proof {
                axiom_u8_trailing_zeros(x);
                let t = lsb as u8;
                assert(((x >> t) & 1u8 == 1u8) ==> t < 6) by (bit_vector)
                    requires
                        x < 64,
                        t <= 8,
                ;
            }
            self.0 = x & (x - 1);
            let ptype = match lsb {
                0 => PieceType::Pawn,
                1 => PieceType::Knight,
                2 => PieceType::Bishop,
                3 => PieceType::Rook,
                4 => PieceType::Queen,
                _ => PieceType::King,
            };
            Some(ptype)
        }
    }
}

} // verus!
