//! Tables the search keeps while it runs: principal variations, killer
//! moves, and history scores.
use vstd::prelude::*;
use vstd::slice::slice_subrange;
use vstd::std_specs::ops::{AddSpecImpl, SubSpecImpl, NegSpecImpl};
use core::ops::{Add, Sub, Neg};
use crate::movegen::moves::Move;
use crate::board::{Board, Color, Piece, PieceType, Square};
use crate::search::params::HIST_AGE_DIVISOR;
use crate::evaluate::trunc_div;
use crate::render::move_text;
use vstd::string::*;

verus! {

/// The deepest ply the search reaches.
pub const MAX_DEPTH: usize = 128;

/// The number of killer moves kept per ply.
pub const MAX_KILLERS: usize = 2;

/// `pv` followed by the first `n` of `slots`, each after a space.
pub open spec fn pv_text(slots: Seq<Move>, n: int) -> Seq<char>
    decreases n,
{
    if n <= 0 {
        seq!['p', 'v']
    } else {
        pv_text(slots, n - 1) + seq![' '] + move_text(slots[n - 1])
    }
}

/// A PV table is a fixed length array and an index, and stores the principal
/// variation for a given node.
#[derive(Debug, Copy, Clone, Eq, PartialEq)]
pub struct PVTable {
    /// The principal variation moves collected so far
    pv: [Move; 128],
    /// The length, being the index of the last move stored in the array (+ 1).
    len: usize,
}

impl PVTable {
    #[verifier::type_invariant]
    spec fn inv(self) -> bool {
        self.len < 128
    }

    /// The moves of the principal variation.
    pub closed spec fn view_moves(self) -> Seq<Move> {
        self.pv@.take(self.len as int)
    }

    /// Every stored slot, the ones past the variation included.
    pub closed spec fn slots(self) -> Seq<Move> {
        self.pv@
    }

    /// Create a new PV table
    pub fn new() -> (r: Self)
        ensures
            r.view_moves() == Seq::<Move>::empty(),
            r.slots() == Seq::new(128, |i: int| Move(0)),
    {
        let r = Self { pv: [Move(0); 128], len: 0 };
        assert(r.pv@ =~= Seq::new(128, |i: int| Move(0)));
        assert(r.pv@.take(0) =~= Seq::<Move>::empty());
        r
    }

    /// Clear the PV table by re-setting its index.
    /// Note that we're not actually clearing any data here.
    pub fn clear(&mut self)
        ensures
            final(self).view_moves() == Seq::<Move>::empty(),
            final(self).slots() == old(self).slots(),
    {
        self.len = 0;
        assert(self.pv@.take(0) =~= Seq::<Move>::empty());
    }

    /// Put `mv` in front of the principal variation of `existing`.
    ///
    /// The slot of `existing` just past its variation is copied along, into
    /// the slot just past the new variation; the slots after that keep what
    /// they held.
    pub fn add_to_front(&mut self, mv: Move, existing: &Self)
        requires
            existing.view_moves().len() < 127,
        ensures
            final(self).view_moves() == seq![mv] + existing.view_moves(),
            final(self).slots() == seq![mv] + existing.slots().take(existing.view_moves().len() + 1int)
                + old(self).slots().skip(existing.view_moves().len() + 2int),
            final(self).slots()[final(self).view_moves().len() as int] == existing.slots()[existing.view_moves().len() as int],
    {
        proof {
            use_type_invariant(&*existing);
        }
        let n = existing.len;
        self.len = n + 1;
        self.pv[0] = mv;
        let mut i: usize = 0;
        while i <= n
            invariant
                n == existing.len,
                n < 127,
                self.len == n + 1,
                i <= n + 1,
                self.pv@.len() == 128,
                self.pv@[0] == mv,
                forall|j: int| 0 <= j < i ==> #[trigger] self.pv@[j + 1] == existing.pv@[j],
                forall|j: int| i + 1 <= j < 128 ==> #[trigger] self.pv@[j] == old(self).pv@[j],
            decreases n + 1 - i,
        {
            self.pv[i + 1] = existing.pv[i];
            i = i + 1;
        }
        assert(self.pv@.take(self.len as int) =~= seq![mv] + existing.pv@.take(n as int)) by {
            assert forall|j: int| 1 <= j < n + 1 implies #[trigger] self.pv@[j] == existing.pv@[j - 1] by {
                assert(self.pv@[(j - 1) + 1] == existing.pv@[j - 1]);
            }
        }
        assert(self.pv@ =~= seq![mv] + existing.pv@.take(n + 1) + old(self).pv@.skip(n + 2)) by {
            assert forall|j: int| 1 <= j < n + 2 implies #[trigger] self.pv@[j] == existing.pv@[j - 1] by {
                assert(self.pv@[(j - 1) + 1] == existing.pv@[j - 1]);
            }
        }
        assert(self.pv@[n + 1] == existing.pv@[n as int]) by {
            assert(self.pv@[n as int + 1] == existing.pv@[n as int]);
        }
    }

    /// Return the PV moves as a slice
    pub fn moves(&self) -> (r: &[Move])
        ensures
            r@ == self.view_moves(),
    {
        proof {
            use_type_invariant(self);
        }
        slice_subrange(self.pv.as_slice(), 0, self.len)
    }

    /// The variation in UCI form: `pv` followed by each move. The slot past
    /// the last move of the variation is written too.
    pub fn to_string(&self) -> (r: String)
        ensures
            r@ == pv_text(self.slots(), self.view_moves().len() + 1int),
    {
        proof {
            use_type_invariant(self);
            reveal_strlit("pv");
        }
        let mut s = String::from_str("pv");
        let mut i: usize = 0;
        while i <= self.len
            invariant
                i <= self.len + 1,
                self.len < 128,
                self.pv@.len() == 128,
                s@ == pv_text(self.pv@, i as int),
            decreases self.len + 1 - i,
        {
            proof {
                reveal_strlit(" ");
            }
            s.append(" ");
            let t = self.pv[i].to_string();
            s.append(t.as_str());
            proof {
                assert(s@ =~= pv_text(self.pv@, i + 1));
            }
            i = i + 1;
        }
        s
    }

    /// Return "the" PV move, being the first move in the principal variation
    pub fn pv_move(&self) -> (r: Move)
        requires
            self.view_moves().len() > 0,
        ensures
            r == self.view_moves()[0],
    {
        self.moves()[0]
    }
}

/// Store a list of "Killer moves"
///
/// These are quiet moves (i.e., not captures or promotions) that still managed
/// to cause a beta cutoff. Killer moves are stored per ply.
#[derive(Debug, Copy, Clone, PartialEq, Eq)]
pub struct Killers {
    // The array of killer moves
    moves: [Move; 2],
    // The length up to which we've stored _actual_ moves. Anything beyond `len`
    // is considered garbage.
    len: usize,
}

impl Killers {
    #[verifier::type_invariant]
    spec fn inv(self) -> bool {
        &&& self.len <= 2
        &&& self.len == 2 ==> self.moves@[0] != self.moves@[1]
        &&& self.len < 1 ==> self.moves@[0] == Move(0)
        &&& self.len < 2 ==> self.moves@[1] == Move(0)
    }

    /// The stored killer moves, most recent first.
    pub closed spec fn view_moves(self) -> Seq<Move> {
        self.moves@.take(self.len as int)
    }

    /// Both slots, the unused one included.
    pub closed spec fn slots(self) -> Seq<Move> {
        self.moves@
    }

    /// Create a new Killers table
    pub fn new() -> (r: Self)
        ensures
            r.view_moves() == Seq::<Move>::empty(),
            r.slots() == seq![Move(0), Move(0)],
    {
        let r = Self { moves: [Move(0); 2], len: 0 };
        assert(r.moves@.take(0) =~= Seq::<Move>::empty());
        assert(r.moves@ =~= seq![Move(0), Move(0)]);
        r
    }

    /// Return the length of the killers table (i.e., the number of stored moves)
    pub fn len(&self) -> (r: usize)
        ensures
            r == self.view_moves().len(),
    {
        proof {
            use_type_invariant(self);
        }
        self.len
    }

    // Return the moves in the table
    pub fn moves(&self) -> (r: &[Move])
        ensures
            r@ == self.view_moves(),
    {
        proof {
            use_type_invariant(self);
        }
        slice_subrange(self.moves.as_slice(), 0, self.len)
    }

    /// Add a killer move to the front of the table, with the additional
    /// semantics that no move can appear twice in the table.
    ///
    /// A move already in one of the two slots, the unused one included,
    /// leaves the table as it is.
    pub fn add(&mut self, mv: Move)
        ensures
            old(self).slots().contains(mv) ==> *final(self) == *old(self),
            !old(self).slots().contains(mv) ==> final(self).slots() == seq![mv, old(self).slots()[0]]
                && final(self).view_moves().len() == (if old(self).view_moves().len() + 1 < 2 {
                old(self).view_moves().len() + 1
            } else {
                2
            }),
            forall|i: int, j: int|
                0 <= i < j < final(self).view_moves().len() ==> final(self).view_moves()[i]
                    != final(self).view_moves()[j],
            final(self).view_moves().len() <= 2,
            old(self).view_moves().contains(mv) ==> *final(self) == *old(self),
            mv != Move(0) && !old(self).view_moves().contains(mv) ==> {
                &&& final(self).view_moves().len() == (if old(self).view_moves().len() + 1 < 2 {
                    old(self).view_moves().len() + 1
                } else {
                    2
                })
                &&& final(self).view_moves() == seq![mv] + old(self).view_moves().take(
                    final(self).view_moves().len() - 1,
                )
            },
    {
        proof {
            use_type_invariant(&*self);
        }
        if !(self.moves[0] == mv || self.moves[1] == mv) {
            let first = self.moves[0];
            let len = if self.len + 1 < MAX_KILLERS {
                self.len + 1
            } else {
                MAX_KILLERS
            };
            *self = Killers { moves: [mv, first], len };
            assert(self.moves@ =~= seq![mv, old(self).moves@[0]]);
            assert(self.moves@.take(self.len as int) =~= seq![mv] + old(self).moves@.take(old(self).len as int).take(
                self.len - 1,
            ));
        } else {
            assert(old(self).moves@.contains(mv)) by {
                if self.moves@[0] == mv {
                    assert(old(self).moves@[0] == mv);
                } else {
                    assert(old(self).moves@[1] == mv);
                }
            }
            if mv != Move(0) {
                assert(old(self).view_moves().contains(mv)) by {
                    if self.moves@[0] == mv {
                        assert(old(self).view_moves()[0] == mv);
                    } else {
                        assert(old(self).view_moves()[1] == mv);
                    }
                }
            }
        }
        proof {
            if old(self).moves@.contains(mv) {
                let j = choose|j: int| 0 <= j < old(self).moves@.len() && old(self).moves@[j] == mv;
                assert(j == 0 || j == 1);
            }
            use_type_invariant(&*self);
        }
    }
}

/// The number of piece kinds: six types for each side.
pub const PIECE_KINDS: usize = 12;

/// The kind of a piece of `color` and type `ptype`: White's six types
/// first, in type order, then Black's.
pub open spec fn piece_kind(color: Color, ptype: PieceType) -> int {
    6 * color.idx() + ptype.idx()
}

/// The kind of a piece, between 0 and 11.
fn kind_of(color: Color, ptype: PieceType) -> (r: usize)
    ensures
        r == piece_kind(color, ptype),
        r < 12,
{
    6 * color.index() + ptype.index()
}

/// Where a quiet move's history score is kept: its target square and the
/// kind of piece that moves.
#[derive(Debug, Copy, Clone, PartialEq, Eq, Structural)]
pub struct HistoryIndex {
    pub square: Square,
    pub color: Color,
    pub piece_type: PieceType,
}

impl HistoryIndex {
    /// The index of `mv` on `board`: its target, and the piece on its source
    /// square.
    pub fn new(board: &Board, mv: Move) -> (r: Self)
        requires
            board.piece_list@[mv.spec_src()] is Some,
        ensures
            r.square.idx() == mv.spec_tgt(),
            r.color == board.piece_list@[mv.spec_src()]->0.color,
            r.piece_type == board.piece_list@[mv.spec_src()]->0.piece_type,
    {
        let square = mv.tgt();
        let piece = board.get_at(mv.src()).unwrap();
        Self { square, color: piece.color, piece_type: piece.piece_type }
    }

    /// The index of a White pawn moving to a1, used where there is no move.
    pub fn default() -> (r: Self)
        ensures
            r.square.idx() == 0,
            r.color == Color::White,
            r.piece_type == PieceType::Pawn,
    {
        Self { square: Square::from_index(0), color: Color::White, piece_type: PieceType::Pawn }
    }

    /// The position of the index in a history table.
    pub open spec fn slot(self) -> int {
        64 * piece_kind(self.color, self.piece_type) + self.square.idx()
    }
}

/// History tables assign scores to quiet moves that caused beta cutoffs
/// anywhere in the search tree, by kind of moving piece and target square.
pub struct HistoryTable {
    scores: [HistoryScore; 768],
}

impl HistoryTable {
    /// The scores, by piece kind and then target square: the score of kind
    /// `k` and square `s` is entry `64 * k + s`.
    pub closed spec fn entries(self) -> Seq<HistoryScore> {
        self.scores@
    }

    /// Create a new HistoryTable
    pub fn new() -> (r: Self)
        ensures
            r.entries().len() == 768,
            forall|i: int| 0 <= i < 768 ==> (#[trigger] r.entries()[i]).0 == 0,
    {
        Self { scores: [HistoryScore(0); 768] }
    }

    /// Set the score of `mv` played by `piece`.
    pub fn set(&mut self, mv: &Move, piece: Piece, value: i16)
        ensures
            final(self).entries() == old(self).entries().update(
                64 * piece_kind(piece.color, piece.piece_type) + mv.spec_tgt(),
                HistoryScore(value),
            ),
    {
        let k = kind_of(piece.color, piece.piece_type);
        let t = mv.tgt().index();
        self.scores[64 * k + t] = HistoryScore(value);
    }

    /// The score of `mv` played by `piece`.
    pub fn get(&self, mv: &Move, piece: Piece) -> (r: i16)
        ensures
            r == self.entries()[64 * piece_kind(piece.color, piece.piece_type) + mv.spec_tgt()].0,
    {
        let k = kind_of(piece.color, piece.piece_type);
        let t = mv.tgt().index();
        self.scores[64 * k + t].0
    }

    /// The score at `index`.
    pub fn score(&self, index: HistoryIndex) -> (r: HistoryScore)
        ensures
            r == self.entries()[index.slot()],
    {
        let k = kind_of(index.color, index.piece_type);
        self.scores[64 * k + index.square.index()]
    }

    /// Set the score at `index`.
    pub fn set_score(&mut self, index: HistoryIndex, score: HistoryScore)
        ensures
            final(self).entries() == old(self).entries().update(index.slot(), score),
    {
        let k = kind_of(index.color, index.piece_type);
        self.scores[64 * k + index.square.index()] = score;
    }

    /// Reduce the values from previous searches so they don't swamp this
    /// search's history values: every score is divided by
    /// `HIST_AGE_DIVISOR`, rounding towards zero.
    pub fn age_entries(&mut self)
        ensures
            final(self).entries().len() == 768,
            forall|i: int| 0 <= i < 768 ==> (#[trigger] final(self).entries()[i]).0 == trunc_div(
                old(self).entries()[i].0 as int,
                2,
            ),
    {
        let mut i: usize = 0;
        while i < 768
            invariant
                i <= 768,
                self.scores@.len() == 768,
                forall|j: int| 0 <= j < i ==> (#[trigger] self.scores@[j]).0 == trunc_div(old(self).scores@[j].0 as int, 2),
                forall|j: int| i <= j < 768 ==> (#[trigger] self.scores@[j]) == old(self).scores@[j],
            decreases 768 - i,
        {
            let v = self.scores[i].0;
            self.scores[i] = HistoryScore(v / HIST_AGE_DIVISOR);
            i = i + 1;
        }
    }
}

/// The largest history score the tapered addition approaches.
pub const MAX_HIST_SCORE: i16 = 16383;

/// A history score: how often a move caused a cutoff, weighted by depth.
#[derive(Debug, Copy, Clone, PartialEq, Eq, Structural, Default)]
pub struct HistoryScore(pub i16);

impl HistoryScore {
    /// The bonus for a cutoff at `depth`.
    pub open spec fn spec_bonus(depth: int) -> int {
        if depth > 13 {
            32
        } else {
            16 * depth * depth + 128 * (depth - 1)
        }
    }

    /// Compute the appropriate history bonus for a given `depth`
    pub fn bonus(depth: usize) -> (r: Self)
        requires
            depth >= 1,
        ensures
            r.0 == Self::spec_bonus(depth as int),
    {
        let bonus: i16 = if depth > 13 {
            32
        } else {
            assert(16 * depth * depth <= 16 * 13 * 13) by (nonlinear_arith)
                requires
                    depth <= 13,
            ;
            let d1 = if depth - 1 > 0 {
                depth - 1
            } else {
                0
            };
            (16 * depth * depth + 128 * d1) as i16
        };
        Self(bonus)
    }

    /// Compute the appropriate history penalty for a given depth: an eighth
    /// of the bonus.
    pub fn penalty(depth: usize) -> (r: Self)
        requires
            depth >= 1,
        ensures
            r.0 == Self::spec_bonus(depth as int) / 8,
    {
        let bonus = Self::bonus(depth);
        Self(bonus.0 / 8)
    }

    /// The tapered sum: `rhs` scaled by how far `self` is from the bound it
    /// moves towards, `rhs - self * |rhs| / MAX_HIST_SCORE`, added to `self`.
    pub open spec fn tapered(self, rhs: Self) -> int {
        rhs.0 - ((trunc_div(self.0 * (if rhs.0 < 0 { -(rhs.0 as int) } else { rhs.0 as int }), 16383)) as i16)
    }
}

impl HistoryScore {
    /// Whether the tapered addition of `rhs` stays within `i16`.
    pub open spec fn add_in_range(self, rhs: Self) -> bool {
        &&& rhs.0 != i16::MIN
        &&& i16::MIN <= self.tapered(rhs) <= i16::MAX
        &&& i16::MIN <= self.0 + self.tapered(rhs) <= i16::MAX
    }

    /// The tapered sum of `self` and `rhs`.
    pub open spec fn tapered_sum(self, rhs: Self) -> HistoryScore {
        HistoryScore((self.0 + self.tapered(rhs)) as i16)
    }
}

impl Neg for HistoryScore {
    type Output = HistoryScore;

    fn neg(self) -> (r: Self::Output) {
        Self(-self.0)
    }
}

impl NegSpecImpl for HistoryScore {
    open spec fn obeys_neg_spec() -> bool {
        true
    }

    open spec fn neg_req(self) -> bool {
        self.0 != i16::MIN
    }

    open spec fn neg_spec(self) -> HistoryScore {
        HistoryScore((-self.0) as i16)
    }
}

impl Add for HistoryScore {
    type Output = HistoryScore;

    /// Add a value to a history score
    ///
    /// Saturates smoothly as the entry approaches `MAX_HIST_SCORE`
    ///
    /// "tapered" addition: (1 +- current / MAX_SCORE) * bonus
    /// boosted by 2x when adding negative value to high positive value,
    /// tapered to 0 when adding positive value to high positive value
    fn add(self, rhs: Self) -> (r: Self::Output) {
        let a = if rhs.0 < 0 {
            -rhs.0
        } else {
            rhs.0
        };
        assert(-32768 * 32767 <= (self.0 as i32) * (a as i32) <= 32768 * 32767) by (nonlinear_arith)
            requires
                -32768 <= self.0 <= 32767,
                0 <= a <= 32767,
        ;
        let q = ((self.0 as i32) * (a as i32) / (MAX_HIST_SCORE as i32)) as i16;
        let tapered = rhs.0 - q;
        Self(self.0 + tapered)
    }
}

impl AddSpecImpl for HistoryScore {
    open spec fn obeys_add_spec() -> bool {
        true
    }

    open spec fn add_req(self, rhs: Self) -> bool {
        self.add_in_range(rhs)
    }

    open spec fn add_spec(self, rhs: Self) -> HistoryScore {
        self.tapered_sum(rhs)
    }
}

impl Sub for HistoryScore {
    type Output = HistoryScore;

    fn sub(self, rhs: Self) -> (r: Self::Output) {
        let negated = HistoryScore(-rhs.0);
        self + negated
    }
}

impl SubSpecImpl for HistoryScore {
    open spec fn obeys_sub_spec() -> bool {
        true
    }

    open spec fn sub_req(self, rhs: Self) -> bool {
        rhs.0 != i16::MIN && self.add_in_range(HistoryScore((-rhs.0) as i16))
    }

    open spec fn sub_spec(self, rhs: Self) -> HistoryScore {
        self.tapered_sum(HistoryScore((-rhs.0) as i16))
    }
}


/// Bounds on the scaled product of two numbers no larger than
/// `MAX_HIST_SCORE`.
proof fn lemma_scaled_product(x: int, y: int)
    requires
        0 <= x <= 16383,
        0 <= y <= 16383,
    ensures
        0 <= (x * y) / 16383 <= x,
        (x * y) / 16383 <= y,
        (x * y) / 16383 >= x + y - 16383,
{
    assert(0 <= x * y <= 16383 * x) by (nonlinear_arith)
        requires
            0 <= x <= 16383,
            0 <= y <= 16383,
    ;
    assert(x * y <= 16383 * y) by (nonlinear_arith)
        requires
            0 <= x <= 16383,
            0 <= y <= 16383,
    ;
    assert(x * y >= 16383 * (x + y - 16383)) by (nonlinear_arith)
        requires
            0 <= x <= 16383,
            0 <= y <= 16383,
    ;
    let q = (x * y) / 16383;
    assert(16383 * q <= x * y < 16383 * q + 16383) by (nonlinear_arith)
        requires
            q == (x * y) / 16383,
            x * y >= 0,
    ;
    assert(q <= x) by (nonlinear_arith)
        requires
            16383 * q <= x * y,
            x * y <= 16383 * x,
    ;
    assert(q <= y) by (nonlinear_arith)
        requires
            16383 * q <= x * y,
            x * y <= 16383 * y,
    ;
    assert(q >= x + y - 16383) by (nonlinear_arith)
        requires
            x * y < 16383 * q + 16383,
            x * y >= 16383 * (x + y - 16383),
    ;
}

/// The tapered addition saturates: adding a score no larger than
/// `MAX_HIST_SCORE` in absolute value to an entry no larger than
/// `MAX_HIST_SCORE` in absolute value stays in range and gives an entry no
/// larger than `MAX_HIST_SCORE` in absolute value.
pub proof fn lemma_tapered_add_saturates(s: HistoryScore, r: HistoryScore)
    requires
        -16383 <= s.0 <= 16383,
        -16383 <= r.0 <= 16383,
    ensures
        s.add_in_range(r),
        -16383 <= s.tapered_sum(r).0 <= 16383,
{
    let a: int = if r.0 < 0 { -(r.0 as int) } else { r.0 as int };
    if s.0 >= 0 {
        lemma_scaled_product(s.0 as int, a);
        assert(s.0 * a >= 0) by (nonlinear_arith)
            requires
                s.0 >= 0,
                a >= 0,
        ;
    } else {
        let b: int = -(s.0 as int);
        lemma_scaled_product(b, a);
        assert(s.0 * a == -(b * a)) by (nonlinear_arith)
            requires
                b == -s.0,
        ;
        assert(b * a >= 0) by (nonlinear_arith)
            requires
                b >= 0,
                a >= 0,
        ;
        if b * a > 0 {
            assert(trunc_div(s.0 * a, 16383) == -((b * a) / 16383));
        } else {
            assert(s.0 * a == 0);
        }
    }
}

} // verus!
