//! Bitboards: sets of squares packed into the bits of a `u64`, where bit `i`
//! stands for the square with index `i` (a1 = 0, b1 = 1, ..., h8 = 63).
use vstd::prelude::*;
use vstd::std_specs::bits::{u64_trailing_zeros, axiom_u64_trailing_zeros};
use vstd::std_specs::convert::FromSpecImpl;
use vstd::std_specs::ops::{BitAndSpecImpl, BitOrSpecImpl, BitXorSpecImpl, NotSpecImpl, AddSpecImpl};
use core::ops::{BitAnd, BitOr, BitXor, Not, Add};
use crate::board::{Color, Square};

verus! {

/// The bitboard holding only bit `i`, or the empty bitboard when `i` lies
/// outside `0..64`.
pub open spec fn bit(i: int) -> u64 {
    if 0 <= i < 64 {
        1u64 << (i as u64)
    } else {
        0u64
    }
}

/// Whether bit `i` of `x` is set.
pub open spec fn has_bit(x: u64, i: int) -> bool {
    0 <= i < 64 && (x >> (i as u64)) & 1u64 == 1u64
}

/// The number of trailing zero bits of `x` (64 for zero).
pub open spec fn tz(x: u64) -> int {
    u64_trailing_zeros(x) as int
}

/// The index of the square reached from square index `i` by moving
/// `dr` ranks and `df` files, when it lies on the board.
///
/// Rank and file are read as `i / 8` and `i % 8`, so that the index 64 of an
/// empty bitboard counts as rank 8, file 0.
pub open spec fn offset_index(i: int, dr: int, df: int) -> Option<int> {
    let r = i / 8 + dr;
    let f = i % 8 + df;
    if 0 <= r < 8 && 0 <= f < 8 {
        Some(r * 8 + f)
    } else {
        None
    }
}

/// Shifting a one bit by `a` and then by `b` gives the bit of square
/// `a + b` (none past the board).
pub proof fn lemma_shl_shl(a: u64, b: u64)
    requires
        a < 64,
        b < 64,
    ensures
        (1u64 << a) << b == bit(a + b),
{
    let s: u64 = (a + b) as u64;
    if a + b < 64 {
        assert((1u64 << a) << b == 1u64 << s) by (bit_vector)
            requires
                a < 64,
                b < 64,
                s == a + b,
                s < 64,
        ;
    } else {
        assert((1u64 << a) << b == 0u64) by (bit_vector)
            requires
                a < 64,
                b < 64,
                a + b >= 64,
        ;
    }
}

/// The lowest set bit of a single-bit bitboard is its only bit.
pub proof fn lemma_tz_bit(i: int)
    requires
        0 <= i < 64,
    ensures
        tz(bit(i)) == i,
{
    let x: u64 = 1u64 << (i as u64);
    let iu: u64 = i as u64;
    axiom_u64_trailing_zeros(x);
    let t = u64_trailing_zeros(x);
    assert(x != 0) by (bit_vector)
        requires
            x == 1u64 << iu,
            iu < 64,
    ;
    let tu: u64 = t as u64;
    assert((x >> tu) & 1u64 == 1u64);
    assert forall|j: u64| j < 64 implies #[trigger] ((x >> j) & 1u64) == (if j == iu { 1u64 } else { 0u64 }) by {
        assert(((x >> j) & 1u64) == (if j == iu { 1u64 } else { 0u64 })) by (bit_vector)
            requires
                x == 1u64 << iu,
                iu < 64,
                j < 64,
        ;
    }
    if tu < iu {
        assert((x >> tu) & 1u64 == 0u64);
    } else if tu > iu {
        assert((x >> iu) & 1u64 == 1u64);
    }
}

/// A square's bit is non-zero, and its lowest set bit is the square itself.
pub proof fn lemma_bit_square(i: int)
    requires
        0 <= i < 64,
    ensures
        bit(i) != 0,
        tz(bit(i)) == i,
{
    lemma_tz_bit(i);
    let iu = i as u64;
    assert(1u64 << iu != 0) by (bit_vector)
        requires
            iu < 64,
    ;
}

/// The bit of a square holds that square and no other.
pub proof fn lemma_has_bit_bit(i: int, j: int)
    requires
        0 <= i < 64,
    ensures
        has_bit(bit(i), j) == (i == j),
{
    if 0 <= j < 64 {
        let iu = i as u64;
        let ju = j as u64;
        assert(((1u64 << iu) >> ju) & 1u64 == (if iu == ju { 1u64 } else { 0u64 })) by (bit_vector)
            requires
                iu < 64,
                ju < 64,
        ;
    }
}

/// The squares of a union are those of either word.
pub proof fn lemma_bits_or(a: u64, b: u64)
    ensures
        forall|i: int| #[trigger] has_bit(a | b, i) == (has_bit(a, i) || has_bit(b, i)),
{
    assert forall|i: int| #[trigger] has_bit(a | b, i) == (has_bit(a, i) || has_bit(b, i)) by {
        if 0 <= i < 64 {
            lemma_bit_at(a, b, i as u64);
        }
    }
}

/// The empty word has no square.
pub proof fn lemma_zero_bits()
    ensures
        forall|j: int| !#[trigger] has_bit(0u64, j),
{
    assert forall|j: int| !#[trigger] has_bit(0u64, j) by {
        if 0 <= j < 64 {
            let ju = j as u64;
            assert((0u64 >> ju) & 1u64 == 0u64) by (bit_vector);
        }
    }
}

/// The squares of an intersection are those of both words.
pub proof fn lemma_bits_and(a: u64, b: u64)
    ensures
        forall|i: int| #[trigger] has_bit(a & b, i) == (has_bit(a, i) && has_bit(b, i)),
{
    assert forall|i: int| #[trigger] has_bit(a & b, i) == (has_bit(a, i) && has_bit(b, i)) by {
        if 0 <= i < 64 {
            lemma_bit_at(a, b, i as u64);
        }
    }
}

/// The squares of a complement are the squares on the board outside the
/// word.
pub proof fn lemma_bits_not(a: u64)
    ensures
        forall|i: int| 0 <= i < 64 ==> #[trigger] has_bit(!a, i) == !has_bit(a, i),
{
    assert forall|i: int| 0 <= i < 64 implies #[trigger] has_bit(!a, i) == !has_bit(a, i) by {
        lemma_bit_at(a, a, i as u64);
    }
}

/// One bit of a union, an intersection and a complement.
proof fn lemma_bit_at(a: u64, b: u64, iu: u64)
    by (bit_vector)
    requires
        iu < 64,
    ensures
        (((a | b) >> iu) & 1u64 == 1u64) == (((a >> iu) & 1u64 == 1u64) || ((b >> iu) & 1u64 == 1u64)),
        (((a & b) >> iu) & 1u64 == 1u64) == (((a >> iu) & 1u64 == 1u64) && ((b >> iu) & 1u64 == 1u64)),
        (((!a) >> iu) & 1u64 == 1u64) == !((a >> iu) & 1u64 == 1u64),
{
}

/// A set of squares, packed into a `u64`.
#[derive(Debug, PartialEq, Eq, Structural, Clone, Copy, Default)]
pub struct Bitboard(pub u64);

/// A displacement on the board, in ranks and files.
#[derive(Debug, PartialEq, Eq, Structural, Clone, Copy)]
pub struct Step {
    pub delta_rank: isize,
    pub delta_file: isize,
}

impl Bitboard {
    /// Whether the bitboard holds the square with index `i`.
    pub open spec fn has(self, i: int) -> bool {
        has_bit(self.0, i)
    }

    /// The index of the lowest square in the bitboard (64 when empty).
    pub open spec fn lsb(self) -> int {
        tz(self.0)
    }

    /// The rank the bitboard stands for: that of its lowest square.
    pub open spec fn spec_rank(self) -> int {
        self.lsb() / 8
    }

    /// The file the bitboard stands for: that of its lowest square.
    pub open spec fn spec_file(self) -> int {
        self.lsb() % 8
    }

    /// The bitboard of the squares on which pawns of `color` start: the
    /// second rank for White, the seventh for Black.
    pub open spec fn spec_pawn_rank(color: Color) -> u64 {
        match color {
            Color::White => 0x000000000000FF00u64,
            Color::Black => 0x00FF000000000000u64,
        }
    }

    /// The empty bitboard.
    pub fn empty() -> (r: Bitboard)
        ensures
            r.0 == 0,
    {
        Bitboard(0)
    }

    /// The pawn starting squares of `color`.
    pub fn pawn_ranks(color: Color) -> (r: Bitboard)
        ensures
            r.0 == Bitboard::spec_pawn_rank(color),
    {
        match color {
            Color::White => Bitboard(0x000000000000FF00),
            Color::Black => Bitboard(0x00FF000000000000),
        }
    }

    /// Whether all squares of the bitboard lie on the pawn starting squares of
    /// `color`.
    pub fn on_pawn_rank(&self, color: Color) -> (r: bool)
        ensures
            r == (Bitboard::spec_pawn_rank(color) & self.0 == self.0),
    {
        Bitboard::pawn_ranks(color).contains(*self)
    }

    /// The bitboard holding the single square on the given rank and file.
    ///
    /// A square past the end of the board (`8 * rank + file >= 64`) gives
    /// the empty bitboard.
    pub fn new(rank: usize, file: usize) -> (r: Bitboard)
        requires
            rank < 8,
            file < 64,
        ensures
            r.0 == bit(8 * rank + file),
    {
        proof {
            lemma_shl_shl((8 * rank) as u64, file as u64);
        }
        let r = 8 * rank as u64;
        let f = file as u64;
        Bitboard((1u64 << r) << f)
    }

    /// The bitboard holding exactly the given square.
    pub fn from_square(square: Square) -> (r: Bitboard)
        ensures
            r.0 == bit(square.idx()),
    {
        let i = square.index() as u64;
        Bitboard(1u64 << i)
    }

    /// The rank of the lowest square of the bitboard (8 when empty).
    pub fn rank(&self) -> (r: usize)
        ensures
            r == self.spec_rank(),
            r <= 8,
    {
        proof {
            axiom_u64_trailing_zeros(self.0);
        }
        (self.0.trailing_zeros() / 8) as usize
    }

    /// The file of the lowest square of the bitboard (0 when empty).
    pub fn file(&self) -> (r: usize)
        ensures
            r == self.spec_file(),
            r < 8,
    {
        proof {
            axiom_u64_trailing_zeros(self.0);
        }
        (self.0.trailing_zeros() % 8) as usize
    }

    /// Add the given squares to the bitboard.
    pub fn add_in_place(&mut self, positions: Self)
        ensures
            final(self).0 == old(self).0 | positions.0,
    {
        self.0 = self.0 | positions.0;
    }

    /// The squares of `self` that are not in `positions`.
    pub fn remove(self, positions: Self) -> (r: Bitboard)
        ensures
            r.0 == self.0 & !positions.0,
    {
        Bitboard(self.0 & !positions.0)
    }

    /// Whether every square of `positions` is in `self`.
    pub fn contains(self, positions: Self) -> (r: bool)
        ensures
            r == (self.0 & positions.0 == positions.0),
    {
        self.0 & positions.0 == positions.0
    }

    /// Whether `self` and `bb` share a square.
    pub fn has_overlap(self, bb: Self) -> (r: bool)
        ensures
            r == (self.0 & bb.0 != 0),
    {
        self.0 & bb.0 != 0
    }

    /// Whether the bitboard holds no square.
    pub fn is_empty(self) -> (r: bool)
        ensures
            r == (self.0 == 0),
    {
        self.0 == 0
    }

    /// The square reached from the lowest square of the bitboard by `step`,
    /// as a bitboard, or `None` when that square lies off the board.
    pub fn offset(&self, step: Step) -> (r: Option<Bitboard>)
        ensures
            match offset_index(self.lsb(), step.delta_rank as int, step.delta_file as int) {
                Some(j) => r == Some(Bitboard(bit(j))),
                None => r is None,
            },
    {
        let rank = self.rank();
        let file = self.file();
        let new_rank: i128 = rank as i128 + step.delta_rank as i128;
        let new_file: i128 = file as i128 + step.delta_file as i128;
        if 0 <= new_rank && new_rank < 8 && 0 <= new_file && new_file < 8 {
            Some(Bitboard::new(new_rank as usize, new_file as usize))
        } else {
            None
        }
    }

    /// Remove the lowest square from the bitboard and return it, or `None`
    /// when the bitboard is empty.
    pub fn next(&mut self) -> (r: Option<Square>)
        ensures
            old(self).0 == 0 ==> r is None && final(self).0 == 0,
            old(self).0 != 0 ==> (r matches Some(sq) && sq.idx() == old(self).lsb()
                && final(self).0 == old(self).0 ^ bit(old(self).lsb())),
    {
        proof {
            axiom_u64_trailing_zeros(self.0);
        }
        let t = self.0.trailing_zeros();
        if t >= 64 {
            None
        } else {
            let t64 = t as u64;
            let pos = 1u64 << t64;
            self.0 = self.0 ^ pos;
            Some(Square::from_index(t as usize))
        }
    }
}

impl Square {
    /// The lowest square of a non-empty bitboard.
    pub fn from_bitboard(value: Bitboard) -> (r: Square)
        requires
            value.0 != 0,
        ensures
            r.idx() == value.lsb(),
    {
        proof {
            axiom_u64_trailing_zeros(value.0);
        }
        Square::from_index(value.0.trailing_zeros() as usize)
    }
}

impl BitAnd for Bitboard {
    type Output = Bitboard;

    fn bitand(self, rhs: Bitboard) -> (r: Bitboard) {
        Bitboard(self.0 & rhs.0)
    }
}

impl BitAndSpecImpl for Bitboard {
    open spec fn obeys_bitand_spec() -> bool {
        true
    }

    open spec fn bitand_req(self, rhs: Bitboard) -> bool {
        true
    }

    open spec fn bitand_spec(self, rhs: Bitboard) -> Bitboard {
        Bitboard(self.0 & rhs.0)
    }
}

impl BitOr for Bitboard {
    type Output = Bitboard;

    fn bitor(self, rhs: Bitboard) -> (r: Bitboard) {
        Bitboard(self.0 | rhs.0)
    }
}

impl BitOrSpecImpl for Bitboard {
    open spec fn obeys_bitor_spec() -> bool {
        true
    }

    open spec fn bitor_req(self, rhs: Bitboard) -> bool {
        true
    }

    open spec fn bitor_spec(self, rhs: Bitboard) -> Bitboard {
        Bitboard(self.0 | rhs.0)
    }
}

impl BitXor for Bitboard {
    type Output = Bitboard;

    fn bitxor(self, rhs: Bitboard) -> (r: Bitboard) {
        Bitboard(self.0 ^ rhs.0)
    }
}

impl BitXorSpecImpl for Bitboard {
    open spec fn obeys_bitxor_spec() -> bool {
        true
    }

    open spec fn bitxor_req(self, rhs: Bitboard) -> bool {
        true
    }

    open spec fn bitxor_spec(self, rhs: Bitboard) -> Bitboard {
        Bitboard(self.0 ^ rhs.0)
    }
}

impl Not for Bitboard {
    type Output = Bitboard;

    fn not(self) -> (r: Bitboard) {
        Bitboard(!self.0)
    }
}

impl NotSpecImpl for Bitboard {
    open spec fn obeys_not_spec() -> bool {
        true
    }

    open spec fn not_req(self) -> bool {
        true
    }

    open spec fn not_spec(self) -> Bitboard {
        Bitboard(!self.0)
    }
}

impl Step {
    pub fn new(delta_rank: isize, delta_file: isize) -> (r: Step)
        ensures
            r.delta_rank == delta_rank,
            r.delta_file == delta_file,
    {
        Step { delta_rank, delta_file }
    }

    pub fn up() -> (r: Step)
        ensures
            r.delta_rank == 1 && r.delta_file == 0,
    {
        Step { delta_rank: 1, delta_file: 0 }
    }

    pub fn down() -> (r: Step)
        ensures
            r.delta_rank == -1 && r.delta_file == 0,
    {
        Step { delta_rank: -1isize, delta_file: 0isize }
    }

    pub fn left() -> (r: Step)
        ensures
            r.delta_rank == 0 && r.delta_file == -1,
    {
        Step { delta_rank: 0, delta_file: -1isize }
    }

    pub fn right() -> (r: Step)
        ensures
            r.delta_rank == 0 && r.delta_file == 1,
    {
        Step { delta_rank: 0, delta_file: 1 }
    }

    pub fn up_left() -> (r: Step)
        ensures
            r.delta_rank == 1 && r.delta_file == -1,
    {
        Step { delta_rank: 1, delta_file: -1isize }
    }

    pub fn up_right() -> (r: Step)
        ensures
            r.delta_rank == 1 && r.delta_file == 1,
    {
        Step { delta_rank: 1, delta_file: 1 }
    }

    pub fn down_left() -> (r: Step)
        ensures
            r.delta_rank == -1 && r.delta_file == -1,
    {
        Step { delta_rank: -1isize, delta_file: -1isize }
    }

    pub fn down_right() -> (r: Step)
        ensures
            r.delta_rank == -1 && r.delta_file == 1,
    {
        Step { delta_rank: -1isize, delta_file: 1 }
    }

    /// One rank towards the opponent of `side`.
    pub open spec fn spec_forward(side: Color) -> Step {
        match side {
            Color::White => Step { delta_rank: 1, delta_file: 0 },
            Color::Black => Step { delta_rank: -1isize, delta_file: 0isize },
        }
    }

    /// One rank towards the opponent of `side`.
    pub fn forward(side: Color) -> (r: Step)
        ensures
            r == Step::spec_forward(side),
    {
        if side == Color::White {
            Step::up()
        } else {
            Step::down()
        }
    }

    /// The four orthogonal directions: up, down, left, right.
    pub open spec fn spec_ortho_dirs() -> Seq<Step> {
        seq![
            Step { delta_rank: 1, delta_file: 0 },
            Step { delta_rank: -1isize, delta_file: 0isize },
            Step { delta_rank: 0, delta_file: -1isize },
            Step { delta_rank: 0, delta_file: 1 },
        ]
    }

    /// The four diagonal directions: up-left, up-right, down-left, down-right.
    pub open spec fn spec_diag_dirs() -> Seq<Step> {
        seq![
            Step { delta_rank: 1, delta_file: -1isize },
            Step { delta_rank: 1, delta_file: 1 },
            Step { delta_rank: -1isize, delta_file: -1isize },
            Step { delta_rank: -1isize, delta_file: 1 },
        ]
    }

    /// The four orthogonal directions, in the order up, down, left, right.
    pub fn ortho_dirs() -> (r: [Step; 4])
        ensures
            r@ == Step::spec_ortho_dirs(),
    {
        [Step::up(), Step::down(), Step::left(), Step::right()]
    }

    /// The four diagonal directions, in the order up-left, up-right,
    /// down-left, down-right.
    pub fn diag_dirs() -> (r: [Step; 4])
        ensures
            r@ == Step::spec_diag_dirs(),
    {
        [Step::up_left(), Step::up_right(), Step::down_left(), Step::down_right()]
    }
}

impl Add for Step {
    type Output = Step;

    fn add(self, rhs: Step) -> (r: Step) {
        Step {
            delta_rank: self.delta_rank + rhs.delta_rank,
            delta_file: self.delta_file + rhs.delta_file,
        }
    }
}

impl AddSpecImpl for Step {
    open spec fn obeys_add_spec() -> bool {
        true
    }

    open spec fn add_req(self, rhs: Step) -> bool {
        isize::MIN <= self.delta_rank + rhs.delta_rank <= isize::MAX
        && isize::MIN <= self.delta_file + rhs.delta_file <= isize::MAX
    }

    open spec fn add_spec(self, rhs: Step) -> Step {
        Step {
            delta_rank: (self.delta_rank + rhs.delta_rank) as isize,
            delta_file: (self.delta_file + rhs.delta_file) as isize,
        }
    }
}


/// The squares a piece on square index `start` sees when it moves up to `n`
/// times by (`dr`, `df`): each square it reaches, up to and including the
/// first one that holds a blocker.
pub open spec fn ray(start: int, dr: int, df: int, n: nat, blockers: u64) -> u64
    decreases n,
{
    if n == 0 {
        0u64
    } else {
        match offset_index(start, dr, df) {
            None => 0u64,
            Some(j) => bit(j) | (if has_bit(blockers, j) {
                0u64
            } else {
                ray(j, dr, df, (n - 1) as nat, blockers)
            }),
        }
    }
}

/// A square reached by a step lies on the board.
pub proof fn lemma_offset_index_range(i: int, dr: int, df: int)
    ensures
        offset_index(i, dr, df) matches Some(j) ==> 0 <= j < 64,
{
}

/// Union is associative, with the empty word as its unit.
pub proof fn lemma_or_assoc(a: u64, b: u64, c: u64)
    ensures
        (a | b) | c == a | (b | c),
        a | 0u64 == a,
        0u64 | a == a,
{
    assert((a | b) | c == a | (b | c)) by (bit_vector);
    assert(a | 0u64 == a) by (bit_vector);
    assert(0u64 | a == a) by (bit_vector);
}

/// A bitboard contains the single square `j` exactly when it holds bit `j`.
pub proof fn lemma_contains_bit(b: u64, j: int)
    requires
        0 <= j < 64,
    ensures
        (b & bit(j) == bit(j)) == has_bit(b, j),
{
    let ju = j as u64;
    assert((b & (1u64 << ju) == (1u64 << ju)) == ((b >> ju) & 1u64 == 1u64)) by (bit_vector)
        requires
            ju < 64,
    ;
}

impl Bitboard {
    /// The squares seen from the lowest square of `position` when moving up
    /// to `range` times by `step`, stopping at (and including) the first
    /// square that holds a blocker.
    pub fn ray_from(position: Bitboard, step: Step, range: usize, blockers: Bitboard) -> (r: Bitboard)
        ensures
            r.0 == ray(position.lsb(), step.delta_rank as int, step.delta_file as int, range as nat, blockers.0),
    {
        let ghost dr = step.delta_rank as int;
        let ghost df = step.delta_file as int;
        let ghost full = ray(position.lsb(), dr, df, range as nat, blockers.0);
        let mut acc: u64 = 0;
        let mut pos = position;
        let mut k: usize = 0;
        let mut done = false;
        proof {
            lemma_or_assoc(full, 0, 0);
        }
        while k < range && !done
            invariant
                k <= range,
                dr == step.delta_rank,
                df == step.delta_file,
                full == ray(position.lsb(), dr, df, range as nat, blockers.0),
                done ==> acc == full,
                !done ==> acc | ray(pos.lsb(), dr, df, (range - k) as nat, blockers.0) == full,
            decreases range - k + (if done { 0int } else { 1int }),
        {
            let ghost m = (range - k) as nat;
            let ghost rest = ray(pos.lsb(), dr, df, m, blockers.0);
            match pos.offset(step) {
                None => {
                    proof {
                        lemma_or_assoc(acc, 0, 0);
                    }
                    done = true;
                },
                Some(p) => {
                    let ghost j = offset_index(pos.lsb(), dr, df)->0;
                    proof {
                        lemma_offset_index_range(pos.lsb(), dr, df);
                        lemma_bit_square(j);
                        lemma_contains_bit(blockers.0, j);
                        let tail = if has_bit(blockers.0, j) {
                            0u64
                        } else {
                            ray(j, dr, df, (m - 1) as nat, blockers.0)
                        };
                        assert(rest == bit(j) | tail);
                        lemma_or_assoc(acc, bit(j), tail);
                        lemma_or_assoc(acc | bit(j), 0, 0);
                    }
                    acc = acc | p.0;
                    k = k + 1;
                    if blockers.contains(p) {
                        done = true;
                    } else {
                        pos = p;
                    }
                },
            }
        }
        proof {
            if !done {
                assert(k == range);
                lemma_or_assoc(acc, 0, 0);
            }
        }
        Bitboard(acc)
    }

    /// The squares seen from the lowest square of the bitboard along `dir`,
    /// up to the edge of the board, stopping at (and including) the first
    /// square that holds a blocker.
    pub fn visible_ray(self, dir: Step, blockers: Bitboard) -> (r: Bitboard)
        ensures
            r.0 == ray(self.lsb(), dir.delta_rank as int, dir.delta_file as int, 7, blockers.0),
    {
        Bitboard::ray_from(self, dir, 7, blockers)
    }
}


/// Whether `x` holds exactly one square.
pub open spec fn is_single(x: u64) -> bool {
    x != 0 && x & ((x - 1) as u64) == 0
}

impl Bitboard {
    /// Whether the bitboard holds exactly one square.
    pub fn is_single(self) -> (r: bool)
        ensures
            r == is_single(self.0),
    {
        self.0 != 0 && self.0 & (self.0 - 1) == 0
    }
}


/// The bitboard of the square on a given rank and file reports that rank
/// and file.
pub proof fn lemma_new_rank_file(r: int, f: int)
    requires
        0 <= r < 8,
        0 <= f < 8,
    ensures
        Bitboard(bit(8 * r + f)).spec_rank() == r,
        Bitboard(bit(8 * r + f)).spec_file() == f,
{
    lemma_tz_bit(8 * r + f);
}

/// The union of all of `rays`.
pub open spec fn union_all(rays: Seq<u64>) -> u64
    decreases rays.len(),
{
    if rays.len() == 0 {
        0u64
    } else {
        union_all(rays.drop_last()) | rays.last()
    }
}

impl Bitboard {
    /// The union of all of `rays`.
    pub fn union_of(rays: &Vec<Bitboard>) -> (r: Bitboard)
        ensures
            r.0 == union_all(rays@.map_values(|b: Bitboard| b.0)),
    {
        let ghost view = rays@.map_values(|b: Bitboard| b.0);
        let mut acc: u64 = 0;
        let mut i: usize = 0;
        while i < rays.len()
            invariant
                i <= rays@.len(),
                view == rays@.map_values(|b: Bitboard| b.0),
                acc == union_all(view.take(i as int)),
            decreases rays@.len() - i,
        {
            proof {
                assert(view.take(i + 1).drop_last() =~= view.take(i as int));
            }
            acc = acc | rays[i].0;
            i = i + 1;
        }
        proof {
            assert(view.take(rays@.len() as int) =~= view);
        }
        Bitboard(acc)
    }
}

impl From<Vec<Bitboard>> for Bitboard {
    /// The union of the bitboards.
    fn from(boards: Vec<Bitboard>) -> (r: Bitboard) {
        Bitboard::union_of(&boards)
    }
}

impl FromSpecImpl<Vec<Bitboard>> for Bitboard {
    open spec fn obeys_from_spec() -> bool {
        true
    }

    open spec fn from_spec(boards: Vec<Bitboard>) -> Bitboard {
        Bitboard(union_all(boards@.map_values(|b: Bitboard| b.0)))
    }
}

} // verus!
