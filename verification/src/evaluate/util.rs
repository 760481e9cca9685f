//! Packed midgame/endgame scores, and helpers for plain scores.
use vstd::prelude::*;
use vstd::std_specs::ops::{AddSpecImpl, SubSpecImpl, MulSpecImpl, NegSpecImpl};
use core::ops::{Add, Sub, Mul, Neg};
use super::trunc_div;

verus! {

/// A plain evaluation score.
pub type Score = i32;

/// The largest number of legal moves a chess position can have.
pub const MAX_MOVES: usize = 218;

pub const MINUS_INF: Score = i32::MIN + 1;
pub const PLUS_INF: Score = i32::MAX;
pub const MATE: Score = 20_000;
pub const NO_SCORE: Score = i32::MIN + 1;
pub const LOWEST_MATE: Score = 20_000 - 218;

/// The packed value of a midgame score `mg` and an endgame score `eg`: the
/// endgame score in the upper 16 bits, plus the midgame score, wrapping
/// around in 32 bits.
pub open spec fn packed(mg: int, eg: int) -> i32 {
    (eg * 65536 + mg) as i32
}

/// A midgame and an endgame score packed into one `i32`, so that adding,
/// subtracting and scaling both takes a single operation.
#[derive(Debug, Copy, Clone, PartialEq, Eq, Structural)]
pub struct S(pub i32);

impl Default for S {
    /// The packed score of a zero midgame and a zero endgame score.
    fn default() -> (r: Self)
        ensures
            r.0 == 0,
            r.0 == packed(0, 0),
    {
        S(0)
    }
}

impl S {
    /// Pack a midgame and an endgame score.
    pub fn new(mg: Score, eg: Score) -> (r: Self)
        ensures
            r.0 == packed(mg as int, eg as int),
    {
        let hi = eg << 16u32;
        let r = hi.wrapping_add(mg);
        assert(r == (eg * 65536 + mg) as i32) by (bit_vector)
            requires
                hi == eg << 16u32,
                r == (if hi + mg > 0x7fff_ffff {
                    (hi + mg - 0x1_0000_0000) as i32
                } else if hi + mg < -0x8000_0000 {
                    (hi + mg + 0x1_0000_0000) as i32
                } else {
                    (hi + mg) as i32
                }),
        ;
        Self(r)
    }

    /// The midgame score: the lower 16 bits, as a signed number.
    pub open spec fn spec_mg(self) -> int {
        (self.0 as i16) as int
    }

    /// The endgame score: the upper 16 bits, corrected for the borrow a
    /// negative midgame score takes from them.
    pub open spec fn spec_eg(self) -> int {
        ((self.0 + 0x8000) as i32 >> 16i16) as int
    }

    /// Extract the midgame score from the packed score
    pub fn mg(&self) -> (r: Score)
        ensures
            r == self.spec_mg(),
    {
        self.0 as i16 as Score
    }

    /// Extract the endgame score from the packed score.
    pub fn eg(&self) -> (r: Score)
        requires
            self.0 + 0x8000 <= i32::MAX,
        ensures
            r == self.spec_eg(),
    {
        ((self.0 + 0x8000) >> 16 as i16) as Score
    }

    /// Interpolate between the midgame and endgame score according to a
    /// given `phase` which is a value between 0 and 24.
    pub fn lerp(&self, phase: u8) -> (r: Score)
        requires
            self.0 + 0x8000 <= i32::MAX,
        ensures
            r == trunc_div(phase * self.spec_mg() + (24 - phase) * self.spec_eg(), 24),
    {
        let mg = self.mg();
        let eg = self.eg();
        let v = self.0;
        assert(-32768 <= mg <= 32767) by (bit_vector)
            requires
                mg == (v as i16) as i32,
        ;
        assert(-32768 <= eg <= 32768) by (bit_vector)
            requires
                eg == ((v + 0x8000) as i32 >> 16i16),
                v + 0x8000 <= 0x7fff_ffff,
        ;
        assert(-255 * 32768 <= phase * mg <= 255 * 32768) by (nonlinear_arith)
            requires
                0 <= phase <= 255,
                -32768 <= mg <= 32767,
        ;
        assert(-231 * 32768 <= (24 - phase) * eg <= 231 * 32768) by (nonlinear_arith)
            requires
                0 <= phase <= 255,
                -32768 <= eg <= 32768,
        ;
        (phase as Score * mg + (24 - phase as Score) * eg) / 24
    }
}

/// Packing two scores and reading them back gives the scores, as long as
/// each fits in 16 bits and the packed value does not wrap around.
pub proof fn lemma_pack_round_trip(mg: i32, eg: i32)
    requires
        -32768 <= mg <= 32767,
        -32768 <= eg <= 32767,
        i32::MIN <= eg * 65536 + mg,
    ensures
        S(packed(mg as int, eg as int)).spec_mg() == mg,
        packed(mg as int, eg as int) + 0x8000 <= i32::MAX,
        S(packed(mg as int, eg as int)).spec_eg() == eg,
{
    let p = packed(mg as int, eg as int);
    assert(p == eg * 65536 + mg);
    assert((p as i16) as i32 == mg && ((p + 0x8000) as i32 >> 16i16) == eg) by (bit_vector)
        requires
            -32768 <= mg <= 32767,
            -32768 <= eg <= 32767,
            p == eg * 65536 + mg,
            -0x8000_0000 <= eg * 65536 + mg,
    ;
}

/// Packing loses nothing: two pairs of 16-bit scores pack to the same value
/// only when they are the same pair.
pub proof fn lemma_pack_injective(mg: i32, eg: i32, mg2: i32, eg2: i32)
    requires
        -32768 <= mg <= 32767,
        -32768 <= eg <= 32767,
        -32768 <= mg2 <= 32767,
        -32768 <= eg2 <= 32767,
    ensures
        (packed(mg as int, eg as int) == packed(mg2 as int, eg2 as int)) <==> (mg == mg2 && eg == eg2),
{
    assert(((eg * 65536 + mg) as i32 == (eg2 * 65536 + mg2) as i32) <==> (mg == mg2 && eg == eg2)) by (bit_vector)
        requires
            -32768 <= mg <= 32767,
            -32768 <= eg <= 32767,
            -32768 <= mg2 <= 32767,
            -32768 <= eg2 <= 32767,
    ;
}

/// Adding packed scores adds their midgame and endgame scores, when nothing
/// wraps around.
pub proof fn lemma_pack_add(m1: int, e1: int, m2: int, e2: int)
    requires
        i32::MIN <= e1 * 65536 + m1 <= i32::MAX,
        i32::MIN <= e2 * 65536 + m2 <= i32::MAX,
        i32::MIN <= (e1 + e2) * 65536 + (m1 + m2) <= i32::MAX,
    ensures
        packed(m1, e1) + packed(m2, e2) == packed(m1 + m2, e1 + e2),
{
}

/// Scaling a packed score scales its midgame and endgame scores, when
/// nothing wraps around.
pub proof fn lemma_pack_mul(m: int, e: int, k: int)
    requires
        i32::MIN <= e * 65536 + m <= i32::MAX,
        i32::MIN <= (e * k) * 65536 + m * k <= i32::MAX,
    ensures
        packed(m, e) * k == packed(m * k, e * k),
{
    assert((e * 65536 + m) * k == (e * k) * 65536 + m * k) by (nonlinear_arith);
}

impl Add for S {
    type Output = Self;

    fn add(self, rhs: Self) -> (r: Self) {
        Self(self.0 + rhs.0)
    }
}

impl AddSpecImpl for S {
    open spec fn obeys_add_spec() -> bool {
        true
    }

    open spec fn add_req(self, rhs: Self) -> bool {
        i32::MIN <= self.0 + rhs.0 <= i32::MAX
    }

    open spec fn add_spec(self, rhs: Self) -> Self {
        S((self.0 + rhs.0) as i32)
    }
}

impl Sub for S {
    type Output = Self;

    fn sub(self, rhs: Self) -> (r: Self) {
        Self(self.0 - rhs.0)
    }
}

impl SubSpecImpl for S {
    open spec fn obeys_sub_spec() -> bool {
        true
    }

    open spec fn sub_req(self, rhs: Self) -> bool {
        i32::MIN <= self.0 - rhs.0 <= i32::MAX
    }

    open spec fn sub_spec(self, rhs: Self) -> Self {
        S((self.0 - rhs.0) as i32)
    }
}

impl Mul<Score> for S {
    type Output = Self;

    fn mul(self, rhs: Score) -> (r: Self) {
        Self(self.0 * rhs)
    }
}

impl MulSpecImpl<Score> for S {
    open spec fn obeys_mul_spec() -> bool {
        true
    }

    open spec fn mul_req(self, rhs: Score) -> bool {
        i32::MIN <= self.0 * rhs <= i32::MAX
    }

    open spec fn mul_spec(self, rhs: Score) -> Self {
        S((self.0 * rhs) as i32)
    }
}

impl Neg for S {
    type Output = Self;

    fn neg(self) -> (r: Self) {
        let mg = self.mg();
        let v = self.0;
        assert(-32768 <= mg <= 32767) by (bit_vector)
            requires
                mg == (v as i16) as i32,
        ;
        let eg = self.eg();
        assert(-32768 <= eg <= 32768) by (bit_vector)
            requires
                eg == ((v + 0x8000) as i32 >> 16i16),
                v + 0x8000 <= 0x7fff_ffff,
        ;
        Self::new(-mg, -eg)
    }
}

impl NegSpecImpl for S {
    open spec fn obeys_neg_spec() -> bool {
        true
    }

    open spec fn neg_req(self) -> bool {
        self.0 + 0x8000 <= i32::MAX
    }

    open spec fn neg_spec(self) -> Self {
        S(packed(-self.spec_mg(), -self.spec_eg()))
    }
}

/// Helpers for plain scores, which count mate scores down from `MATE` by
/// the number of plies to the mate.
pub trait ScoreExt: Sized {
    /// The scores whose absolute value can be taken.
    spec fn has_abs(self) -> bool;

    /// The scores and plies for which moving a mate score by `ply` stays in
    /// range: upwards when `up`, downwards otherwise.
    spec fn shift_in_range(self, ply: usize, up: bool) -> bool;

    /// Return whether or not a score is a mate score
    fn is_mate(self) -> bool
        requires
            self.has_abs(),
    ;

    /// Return the number of plies until mate.
    fn mate_distance(self) -> i32
        requires
            self.has_abs(),
    ;

    /// Normalize the score such that mate scores are considered relative to
    /// the _provided ply_.
    fn relative(self, ply: usize) -> Self
        requires
            self.has_abs(),
            self.shift_in_range(ply, true),
    ;

    /// Denormalize a score such that any mate scores are considered relative
    /// to the _root_.
    fn absolute(self, ply: usize) -> Self
        requires
            self.has_abs(),
            self.shift_in_range(ply, false),
    ;
}

/// The absolute value of `s`.
pub open spec fn abs(s: int) -> int {
    if s < 0 {
        -s
    } else {
        s
    }
}

/// Whether `s` is a mate score: within `MAX_MOVES` of `MATE` in absolute
/// value.
pub open spec fn spec_is_mate(s: int) -> bool {
    abs(s) >= 20_000 - 218
}

impl ScoreExt for Score {
    open spec fn has_abs(self) -> bool {
        self != i32::MIN
    }

    open spec fn shift_in_range(self, ply: usize, up: bool) -> bool {
        spec_is_mate(self as int) ==> if up {
            i32::MIN <= self + (ply as i32) <= i32::MAX
        } else {
            i32::MIN <= self - (ply as i32) <= i32::MAX
        }
    }

    fn is_mate(self) -> (r: bool)
        ensures
            r == spec_is_mate(self as int),
    {
        let a = if self < 0 {
            -self
        } else {
            self
        };
        a >= MATE - MAX_MOVES as i32
    }

    fn mate_distance(self) -> (r: i32)
        ensures
            r == 20_000 - abs(self as int),
    {
        let a = if self < 0 {
            -self
        } else {
            self
        };
        MATE - a
    }

    fn relative(self, ply: usize) -> (r: Self)
        ensures
            r == spec_relative(self as int, (ply as i32) as int),
    {
        if self.is_mate() {
            self + ply as Self
        } else {
            self
        }
    }

    fn absolute(self, ply: usize) -> (r: Self)
        ensures
            r == spec_absolute(self as int, (ply as i32) as int),
    {
        if self.is_mate() {
            self - ply as Self
        } else {
            self
        }
    }
}

/// A score made relative to `ply`.
pub open spec fn spec_relative(s: int, ply: int) -> int {
    if spec_is_mate(s) {
        s + ply
    } else {
        s
    }
}

/// A score made absolute from `ply`.
pub open spec fn spec_absolute(s: int, ply: int) -> int {
    if spec_is_mate(s) {
        s - ply
    } else {
        s
    }
}

/// Making a score relative to a ply and then absolute from it again gives it
/// back, as long as a mate score stays a mate score in between and a plain
/// score stays plain.
pub proof fn lemma_relative_absolute(s: int, ply: int)
    requires
        spec_is_mate(s) == spec_is_mate(spec_relative(s, ply)),
    ensures
        spec_absolute(spec_relative(s, ply), ply) == s,
{
}

} // verus!
