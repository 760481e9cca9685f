//! Lookup tables of pawn-structure masks: files, passed-pawn spans,
//! isolated-pawn neighbours.
use vstd::prelude::*;
use crate::bitboard::{Bitboard, has_bit, lemma_bits_or, lemma_zero_bits};

verus! {

/// The squares of the a-file.
pub const A_FILE: u64 = 0x0101010101010101;

/// The squares of the h-file.
pub const H_FILE: u64 = 0x8080808080808080;

/// The a-file shifted up by `k` squares holds the squares `k` or more
/// squares above a square of the a-file.
pub proof fn lemma_a_file_shl(k: u64, j: u64)
    by (bit_vector)
    requires
        k < 64,
        j < 64,
    ensures
        (((0x0101010101010101u64 << k) >> j) & 1u64 == 1u64) == (j >= k && (j - k) % 8 == 0),
{
}

/// The h-file shifted down by `k` squares holds the squares `k` or more
/// squares below a square of the h-file.
pub proof fn lemma_h_file_shr(k: u64, j: u64)
    by (bit_vector)
    requires
        k < 64,
        j < 64,
    ensures
        (((0x8080808080808080u64 >> k) >> j) & 1u64 == 1u64) == (j + k <= 63 && (j + k) % 8 == 7),
{
}

/// The squares of the a-file shifted up by `k`, as a set of square indices.
proof fn lemma_a_file_bits(k: int)
    requires
        0 <= k < 64,
    ensures
        forall|j: int| #[trigger] has_bit(A_FILE << (k as u64), j) == (0 <= j < 64 && j >= k && (j - k) % 8 == 0),
{
    assert forall|j: int| #[trigger] has_bit(A_FILE << (k as u64), j) == (0 <= j < 64 && j >= k && (j - k) % 8
        == 0) by {
        if 0 <= j < 64 {
            lemma_a_file_shl(k as u64, j as u64);
        }
    }
}

/// The squares of the h-file shifted down by `k`, as a set of square
/// indices.
proof fn lemma_h_file_bits(k: int)
    requires
        0 <= k < 64,
    ensures
        forall|j: int| #[trigger] has_bit(H_FILE >> (k as u64), j) == (0 <= j < 64 && j + k <= 63 && (j + k) % 8 == 7),
{
    assert forall|j: int| #[trigger] has_bit(H_FILE >> (k as u64), j) == (0 <= j < 64 && j + k <= 63 && (j + k) % 8
        == 7) by {
        if 0 <= j < 64 {
            lemma_h_file_shr(k as u64, j as u64);
        }
    }
}

/// Whether square `j` lies on the file of square `sq` or on a file next to
/// it.
pub open spec fn near_file(sq: int, j: int) -> bool {
    -1 <= j % 8 - sq % 8 <= 1
}

/// Whether square `j` lies in the passed-pawn mask of a White pawn on `sq`:
/// on a higher rank, on its file or a neighbouring one.
pub open spec fn in_white_passed_mask(sq: int, j: int) -> bool {
    0 <= j < 64 && j / 8 > sq / 8 && near_file(sq, j)
}

/// Whether square `j` lies in the passed-pawn mask of a Black pawn on `sq`:
/// on a lower rank, on its file or a neighbouring one.
pub open spec fn in_black_passed_mask(sq: int, j: int) -> bool {
    0 <= j < 64 && j / 8 < sq / 8 && near_file(sq, j)
}

/// The squares a whole number of ranks above square `sq` plus 7, 8 or 9 lie
/// on higher ranks, on the file to the left, the same file or the file to
/// the right.
proof fn lemma_white_steps(sq: int, j: int)
    requires
        0 <= sq < 56,
        0 <= j < 64,
    ensures
        (j >= sq + 8 && (j - sq - 8) % 8 == 0) == (j / 8 > sq / 8 && j % 8 == sq % 8),
        sq % 8 > 0 ==> (j >= sq + 7 && (j - sq - 7) % 8 == 0) == (j / 8 > sq / 8 && j % 8 + 1 == sq % 8),
        sq % 8 < 7 ==> (j >= sq + 9 && (j - sq - 9) % 8 == 0) == (j / 8 > sq / 8 && j % 8 == sq % 8 + 1),
{
}

/// The passed-pawn mask of a White pawn on `sq`.
fn white_passed_mask(sq: usize) -> (r: Bitboard)
    requires
        sq < 64,
    ensures
        forall|j: int| #[trigger] has_bit(r.0, j) == in_white_passed_mask(sq as int, j),
{
    if sq < 56 {
        let ahead = A_FILE << ((sq + 8) as u64);
        let left = if sq % 8 > 0 {
            A_FILE << ((sq + 7) as u64)
        } else {
            0u64
        };
        let right = if sq % 8 < 7 {
            A_FILE << ((sq + 9) as u64)
        } else {
            0u64
        };
        proof {
            lemma_a_file_bits(sq + 8);
            if sq % 8 > 0 {
                lemma_a_file_bits(sq + 7);
            }
            if sq % 8 < 7 {
                lemma_a_file_bits(sq + 9);
            }
            lemma_zero_bits();
            lemma_bits_or(ahead, left);
            lemma_bits_or(ahead | left, right);
            assert forall|j: int| #[trigger] has_bit((ahead | left) | right, j) == in_white_passed_mask(
                sq as int,
                j,
            ) by {
                assert(has_bit((ahead | left) | right, j) == (has_bit(ahead, j) || has_bit(left, j) || has_bit(
                    right,
                    j,
                )));
                if 0 <= j < 64 {
                    lemma_white_steps(sq as int, j);
                }
            }
        }
        Bitboard((ahead | left) | right)
    } else {
        proof {
            lemma_zero_bits();
        }
        Bitboard(0)
    }
}

/// The passed-pawn mask of a Black pawn on `sq`.
fn black_passed_mask(sq: usize) -> (r: Bitboard)
    requires
        sq < 64,
    ensures
        forall|j: int| #[trigger] has_bit(r.0, j) == in_black_passed_mask(sq as int, j),
{
    if sq > 7 {
        let offset = 63 - sq;
        let behind = H_FILE >> ((offset + 8) as u64);
        let left = if sq % 8 > 0 {
            H_FILE >> ((offset + 9) as u64)
        } else {
            0u64
        };
        let right = if sq % 8 < 7 {
            H_FILE >> ((offset + 7) as u64)
        } else {
            0u64
        };
        proof {
            lemma_h_file_bits(offset + 8);
            if sq % 8 > 0 {
                lemma_h_file_bits(offset + 9);
            }
            if sq % 8 < 7 {
                lemma_h_file_bits(offset + 7);
            }
            lemma_zero_bits();
            lemma_bits_or(behind, left);
            lemma_bits_or(behind | left, right);
            assert forall|j: int| #[trigger] has_bit((behind | left) | right, j) == in_black_passed_mask(
                sq as int,
                j,
            ) by {
                assert(has_bit((behind | left) | right, j) == (has_bit(behind, j) || has_bit(left, j) || has_bit(
                    right,
                    j,
                )));
            }
        }
        Bitboard((behind | left) | right)
    } else {
        proof {
            lemma_zero_bits();
        }
        Bitboard(0)
    }
}


/// The passed-pawn masks, White's first, then Black's: for a pawn on each
/// square, the squares ahead of it on its own file and on the files next to
/// it. A pawn is passed when no enemy pawn stands in its mask.
pub fn gen_passed_pawn_masks() -> (r: [[Bitboard; 64]; 2])
    ensures
        forall|sq: int, j: int| 0 <= sq < 64 ==> #[trigger] has_bit(r@[0]@[sq].0, j) == in_white_passed_mask(sq, j),
        forall|sq: int, j: int| 0 <= sq < 64 ==> #[trigger] has_bit(r@[1]@[sq].0, j) == in_black_passed_mask(sq, j),
{
    let mut white = [Bitboard(0); 64];
    let mut black = [Bitboard(0); 64];
    let mut sq: usize = 0;
    while sq < 64
        invariant
            sq <= 64,
            white@.len() == 64,
            black@.len() == 64,
            forall|s: int, j: int| 0 <= s < sq ==> #[trigger] has_bit(white@[s].0, j) == in_white_passed_mask(s, j),
            forall|s: int, j: int| 0 <= s < sq ==> #[trigger] has_bit(black@[s].0, j) == in_black_passed_mask(s, j),
        decreases 64 - sq,
    {
        white[sq] = white_passed_mask(sq);
        black[sq] = black_passed_mask(sq);
        sq = sq + 1;
    }
    [white, black]
}

/// Whether square `j` lies on a file next to the file of square `sq`.
pub open spec fn in_isolated_mask(sq: int, j: int) -> bool {
    0 <= j < 64 && (j % 8 - sq % 8 == 1 || sq % 8 - j % 8 == 1)
}

/// The isolated-pawn masks: for each square, the files next to its file. A
/// pawn is isolated when no friendly pawn stands in its mask.
pub fn gen_isolated_pawn_masks() -> (r: [Bitboard; 64])
    ensures
        forall|sq: int, j: int| 0 <= sq < 64 ==> #[trigger] has_bit(r@[sq].0, j) == in_isolated_mask(sq, j),
{
    let mut masks = [Bitboard(0); 64];
    let mut sq: usize = 0;
    proof {
        lemma_zero_bits();
    }
    while sq < 64
        invariant
            sq <= 64,
            masks@.len() == 64,
            forall|j: int| !#[trigger] has_bit(0u64, j),
            forall|s: int, j: int| 0 <= s < sq ==> #[trigger] has_bit(masks@[s].0, j) == in_isolated_mask(s, j),
        decreases 64 - sq,
    {
        let file = sq % 8;
        let left = if file > 0 {
            A_FILE << ((file - 1) as u64)
        } else {
            0u64
        };
        let right = if file < 7 {
            A_FILE << ((file + 1) as u64)
        } else {
            0u64
        };
        proof {
            if file > 0 {
                lemma_a_file_bits(file - 1);
            }
            if file < 7 {
                lemma_a_file_bits(file + 1);
            }
            lemma_bits_or(left, right);
            assert forall|j: int| #[trigger] has_bit(left | right, j) == in_isolated_mask(sq as int, j) by {
                assert(has_bit(left | right, j) == (has_bit(left, j) || has_bit(right, j)));
            }
        }
        masks[sq] = Bitboard(left | right);
        sq = sq + 1;
    }
    masks
}

/// The file masks by file index: mask `f` holds the squares of file `f`.
pub fn gen_doubled_pawn_masks() -> (r: [Bitboard; 8])
    ensures
        forall|f: int, j: int| 0 <= f < 8 ==> #[trigger] has_bit(r@[f].0, j) == (0 <= j < 64 && j % 8 == f),
{
    let mut masks = [Bitboard(0); 8];
    let mut rank: usize = 0;
    while rank < 8
        invariant
            rank <= 8,
            masks@.len() == 8,
            forall|f: int, j: int| 0 <= f < rank ==> #[trigger] has_bit(masks@[f].0, j) == (0 <= j < 64 && j % 8 == f),
        decreases 8 - rank,
    {
        proof {
            lemma_a_file_bits(rank as int);
        }
        masks[rank] = Bitboard(A_FILE << (rank as u64));
        rank = rank + 1;
    }
    masks
}

/// The file of each square: entry `sq` holds the squares on the file of
/// `sq`.
pub fn gen_files() -> (r: [Bitboard; 64])
    ensures
        forall|sq: int, j: int| 0 <= sq < 64 ==> #[trigger] has_bit(r@[sq].0, j) == (0 <= j < 64 && j % 8 == sq % 8),
{
    let mut masks = [Bitboard(0); 64];
    let mut sq: usize = 0;
    while sq < 64
        invariant
            sq <= 64,
            masks@.len() == 64,
            forall|s: int, j: int| 0 <= s < sq ==> #[trigger] has_bit(masks@[s].0, j) == (0 <= j < 64 && j % 8 == s
                % 8),
        decreases 64 - sq,
    {
        let file = sq % 8;
        proof {
            lemma_a_file_bits(file as int);
        }
        masks[sq] = Bitboard(A_FILE << (file as u64));
        sq = sq + 1;
    }
    masks
}

} // verus!
