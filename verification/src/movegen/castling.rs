//! Castling: the four kinds of castle, and the rights a side keeps to them.
use vstd::prelude::*;
use vstd::string::*;
use crate::bitboard::{Bitboard, bit, lemma_bit_square};
use crate::board::{Board, Color, Square};
use super::moves::Move;
use crate::text::{fields, split_fields};

verus! {

/// The four kinds of castle: White queenside and kingside, Black queenside
/// and kingside.
#[derive(Debug, PartialEq, Eq, Structural, Copy, Clone)]
pub enum CastleType {
    WQ,
    WK,
    BQ,
    BK,
}

/// The castle whose king lands on square index `t`: c1, g1, c8 or g8.
pub open spec fn castle_of_target(t: int) -> Option<CastleType> {
    if t == 2 {
        Some(CastleType::WQ)
    } else if t == 6 {
        Some(CastleType::WK)
    } else if t == 58 {
        Some(CastleType::BQ)
    } else if t == 62 {
        Some(CastleType::BK)
    } else {
        None
    }
}

impl CastleType {
    pub open spec fn idx(self) -> int {
        match self {
            CastleType::WQ => 0,
            CastleType::WK => 1,
            CastleType::BQ => 2,
            CastleType::BK => 3,
        }
    }

    pub open spec fn spec_color(self) -> Color {
        match self {
            CastleType::WQ | CastleType::WK => Color::White,
            CastleType::BQ | CastleType::BK => Color::Black,
        }
    }

    /// The square index the king starts from.
    pub open spec fn king_source_index(self) -> int {
        match self {
            CastleType::WQ | CastleType::WK => 4,
            CastleType::BQ | CastleType::BK => 60,
        }
    }

    /// The square index the king lands on.
    pub open spec fn king_target_index(self) -> int {
        match self {
            CastleType::WQ => 2,
            CastleType::WK => 6,
            CastleType::BQ => 58,
            CastleType::BK => 62,
        }
    }

    /// The square index the rook starts from.
    pub open spec fn rook_source_index(self) -> int {
        match self {
            CastleType::WQ => 0,
            CastleType::WK => 7,
            CastleType::BQ => 56,
            CastleType::BK => 63,
        }
    }

    /// The square index the rook lands on.
    pub open spec fn rook_target_index(self) -> int {
        match self {
            CastleType::WQ => 3,
            CastleType::WK => 5,
            CastleType::BQ => 59,
            CastleType::BK => 61,
        }
    }

    /// The squares that must not be attacked for the castle to be played: the
    /// king's square and the squares it passes over and lands on.
    pub open spec fn vuln_squares(self) -> u64 {
        match self {
            CastleType::WQ => 0x000000000000001Cu64,
            CastleType::WK => 0x0000000000000070u64,
            CastleType::BQ => 0x1C00000000000000u64,
            CastleType::BK => 0x7000000000000000u64,
        }
    }

    /// The squares between the king and the rook, which must be empty for
    /// the castle to be played.
    pub open spec fn path_squares(self) -> u64 {
        match self {
            CastleType::WQ => 0x000000000000000Eu64,
            CastleType::WK => 0x0000000000000060u64,
            CastleType::BQ => 0x0E00000000000000u64,
            CastleType::BK => 0x6000000000000000u64,
        }
    }

    /// The squares between the king and the rook.
    pub fn path(self) -> (r: Bitboard)
        ensures
            r.0 == self.path_squares(),
    {
        match self {
            CastleType::WQ => Bitboard(0x000000000000000E),
            CastleType::WK => Bitboard(0x0000000000000060),
            CastleType::BQ => Bitboard(0x0E00000000000000),
            CastleType::BK => Bitboard(0x6000000000000000),
        }
    }

    /// The side that plays the castle.
    pub fn color(&self) -> (r: Color)
        ensures
            r == self.spec_color(),
    {
        match self {
            CastleType::WQ | CastleType::WK => Color::White,
            CastleType::BQ | CastleType::BK => Color::Black,
        }
    }

    /// The castle whose king move lands on the target of `mv`, if any.
    pub fn from_move(mv: &Move) -> (r: Option<CastleType>)
        ensures
            r == castle_of_target(mv.spec_tgt()),
    {
        let tgt = mv.tgt().index();
        if tgt == 2 {
            Some(CastleType::WQ)
        } else if tgt == 6 {
            Some(CastleType::WK)
        } else if tgt == 58 {
            Some(CastleType::BQ)
        } else if tgt == 62 {
            Some(CastleType::BK)
        } else {
            None
        }
    }

    /// All four castles, in the order WQ, WK, BQ, BK.
    pub fn get_all() -> (r: [CastleType; 4])
        ensures
            r@ == seq![CastleType::WQ, CastleType::WK, CastleType::BQ, CastleType::BK],
    {
        [CastleType::WQ, CastleType::WK, CastleType::BQ, CastleType::BK]
    }

    pub fn vuln(self) -> (r: Bitboard)
        ensures
            r.0 == self.vuln_squares(),
    {
        match self {
            CastleType::WQ => Bitboard(0x000000000000001C),
            CastleType::WK => Bitboard(0x0000000000000070),
            CastleType::BQ => Bitboard(0x1C00000000000000),
            CastleType::BK => Bitboard(0x7000000000000000),
        }
    }

    pub fn king_source(self) -> (r: Bitboard)
        ensures
            r.0 == bit(self.king_source_index()),
    {
        match self {
            CastleType::WQ | CastleType::WK => {
                proof {
                    assert(0x0000000000000010u64 == 1u64 << 4u64) by (bit_vector);
                }
                Bitboard(0x0000000000000010)
            },
            CastleType::BQ | CastleType::BK => {
                proof {
                    assert(0x1000000000000000u64 == 1u64 << 60u64) by (bit_vector);
                }
                Bitboard(0x1000000000000000)
            },
        }
    }

    pub fn king_target(self) -> (r: Bitboard)
        ensures
            r.0 == bit(self.king_target_index()),
    {
        match self {
            CastleType::WQ => {
                proof {
                    assert(0x0000000000000004u64 == 1u64 << 2u64) by (bit_vector);
                }
                Bitboard(0x0000000000000004)
            },
            CastleType::WK => {
                proof {
                    assert(0x0000000000000040u64 == 1u64 << 6u64) by (bit_vector);
                }
                Bitboard(0x0000000000000040)
            },
            CastleType::BQ => {
                proof {
                    assert(0x0400000000000000u64 == 1u64 << 58u64) by (bit_vector);
                }
                Bitboard(0x0400000000000000)
            },
            CastleType::BK => {
                proof {
                    assert(0x4000000000000000u64 == 1u64 << 62u64) by (bit_vector);
                }
                Bitboard(0x4000000000000000)
            },
        }
    }

    pub fn rook_source(self) -> (r: Bitboard)
        ensures
            r.0 == bit(self.rook_source_index()),
    {
        match self {
            CastleType::WQ => {
                proof {
                    assert(0x0000000000000001u64 == 1u64 << 0u64) by (bit_vector);
                }
                Bitboard(0x0000000000000001)
            },
            CastleType::WK => {
                proof {
                    assert(0x0000000000000080u64 == 1u64 << 7u64) by (bit_vector);
                }
                Bitboard(0x0000000000000080)
            },
            CastleType::BQ => {
                proof {
                    assert(0x0100000000000000u64 == 1u64 << 56u64) by (bit_vector);
                }
                Bitboard(0x0100000000000000)
            },
            CastleType::BK => {
                proof {
                    assert(0x8000000000000000u64 == 1u64 << 63u64) by (bit_vector);
                }
                Bitboard(0x8000000000000000)
            },
        }
    }

    pub fn rook_target(self) -> (r: Bitboard)
        ensures
            r.0 == bit(self.rook_target_index()),
    {
        match self {
            CastleType::WQ => {
                proof {
                    assert(0x0000000000000008u64 == 1u64 << 3u64) by (bit_vector);
                }
                Bitboard(0x0000000000000008)
            },
            CastleType::WK => {
                proof {
                    assert(0x0000000000000020u64 == 1u64 << 5u64) by (bit_vector);
                }
                Bitboard(0x0000000000000020)
            },
            CastleType::BQ => {
                proof {
                    assert(0x0800000000000000u64 == 1u64 << 59u64) by (bit_vector);
                }
                Bitboard(0x0800000000000000)
            },
            CastleType::BK => {
                proof {
                    assert(0x2000000000000000u64 == 1u64 << 61u64) by (bit_vector);
                }
                Bitboard(0x2000000000000000)
            },
        }
    }

    /// The king's move of the castle, flagged as a castle.
    pub open spec fn spec_king_move(self) -> Move {
        Move(((self.king_source_index() + 64 * self.king_target_index()) + 0x1000) as u16)
    }

    /// The king's move of the castle, flagged as a castle.
    pub fn king_move(&self) -> (r: Move)
        ensures
            r == self.spec_king_move(),
    {
        proof {
            lemma_bit_square(self.king_source_index());
            lemma_bit_square(self.king_target_index());
        }
        let src = Square::from_bitboard(self.king_source());
        let tgt = Square::from_bitboard(self.king_target());
        let mut mv = Move::new(src, tgt);
        mv.set_castle();
        let v = mv.0;
        assert(v == ((self.king_source_index() + 64 * self.king_target_index()) + 0x1000) as u16) by {
            let s = self.king_source_index() as u16;
            let t = self.king_target_index() as u16;
            assert(v == (s + 64 * t) as u16 | 0x1000u16);
            assert(((s + 64 * t) as u16 | 0x1000u16) == (s + 64 * t + 0x1000) as u16) by (bit_vector)
                requires
                    s < 64,
                    t < 64,
            ;
        }
        mv
    }

    /// The rook's move of the castle, with no flag.
    pub fn rook_move(self) -> (r: Move)
        ensures
            r.0 == self.rook_source_index() + 64 * self.rook_target_index(),
    {
        proof {
            lemma_bit_square(self.rook_source_index());
            lemma_bit_square(self.rook_target_index());
        }
        let src = Square::from_bitboard(self.rook_source());
        let tgt = Square::from_bitboard(self.rook_target());
        Move::new(src, tgt)
    }
}


/// The castles a side may still play, one bit per castle: bit 0 for White
/// queenside, 1 for White kingside, 2 for Black queenside, 3 for Black
/// kingside.
#[derive(Debug, PartialEq, Eq, Structural, Default, Clone, Copy)]
pub struct CastlingRights(pub u8);

/// The error returned when a castling field holds an unknown character, or
/// a FEN string has no castling field.
#[derive(Debug, PartialEq, Eq, Structural, Clone, Copy)]
pub struct InvalidCastlingRights;

/// The bit of the rights that stands for `ctype`.
pub open spec fn castle_bit(ctype: CastleType) -> u8 {
    match ctype {
        CastleType::WQ => 1u8,
        CastleType::WK => 2u8,
        CastleType::BQ => 4u8,
        CastleType::BK => 8u8,
    }
}

/// The castles of `side` that `rights` allow, among the first `n` of WQ, WK,
/// BQ, BK, in that order.
pub open spec fn available_prefix(rights: u8, side: Color, n: int) -> Seq<CastleType>
    decreases n,
{
    if n <= 0 {
        Seq::<CastleType>::empty()
    } else {
        let all = seq![CastleType::WQ, CastleType::WK, CastleType::BQ, CastleType::BK];
        let c = all[n - 1];
        let prev = available_prefix(rights, side, n - 1);
        if c.spec_color() == side && rights & castle_bit(c) != 0 {
            prev.push(c)
        } else {
            prev
        }
    }
}

/// The rights that a castling field such as `KQkq` or `-` spells, or `None`
/// when it holds a character other than `K`, `Q`, `k`, `q` and `-`.
pub open spec fn rights_of_chars(s: Seq<char>) -> Option<u8>
    decreases s.len(),
{
    if s.len() == 0 {
        Some(0u8)
    } else {
        match rights_of_chars(s.drop_last()) {
            None => None,
            Some(b) => {
                let c = s.last();
                if c == 'Q' {
                    Some(b | 1u8)
                } else if c == 'K' {
                    Some(b | 2u8)
                } else if c == 'q' {
                    Some(b | 4u8)
                } else if c == 'k' {
                    Some(b | 8u8)
                } else if c == '-' {
                    Some(b)
                } else {
                    None
                }
            },
        }
    }
}

impl CastlingRights {
    /// The right to castle White queenside.
    pub fn wq() -> (r: CastlingRights)
        ensures
            r.0 == 1,
    {
        CastlingRights(0b0001)
    }

    /// The right to castle White kingside.
    pub fn wk() -> (r: CastlingRights)
        ensures
            r.0 == 2,
    {
        CastlingRights(0b0010)
    }

    /// The right to castle Black queenside.
    pub fn bq() -> (r: CastlingRights)
        ensures
            r.0 == 4,
    {
        CastlingRights(0b0100)
    }

    /// The right to castle Black kingside.
    pub fn bk() -> (r: CastlingRights)
        ensures
            r.0 == 8,
    {
        CastlingRights(0b1000)
    }

    /// All four castling rights.
    pub fn new() -> (r: CastlingRights)
        ensures
            r.0 == 0b1111,
    {
        CastlingRights(0b1111)
    }

    /// No castling right.
    pub fn none() -> (r: CastlingRights)
        ensures
            r.0 == 0,
    {
        CastlingRights(0)
    }

    /// Grant the rights in `castle`.
    pub fn add(&mut self, castle: CastlingRights)
        ensures
            final(self).0 == old(self).0 | castle.0,
    {
        self.0 = self.0 | castle.0;
    }

    /// Withdraw the rights in `castle`.
    pub fn remove(&mut self, castle: CastlingRights)
        ensures
            final(self).0 == old(self).0 & !castle.0,
    {
        self.0 = self.0 & !castle.0;
    }

    /// Flip the rights in `castle`.
    pub fn toggle(&mut self, castle: CastlingRights)
        ensures
            final(self).0 == old(self).0 ^ castle.0,
    {
        self.0 = self.0 ^ castle.0;
    }

    pub open spec fn spec_is_available(self, ctype: CastleType) -> bool {
        self.0 & castle_bit(ctype) != 0
    }

    /// Whether the rights allow the castle `ctype`.
    pub fn is_available(&self, ctype: &CastleType) -> (r: bool)
        ensures
            r == self.spec_is_available(*ctype),
    {
        match ctype {
            CastleType::WQ => self.0 & 0b0001 != 0,
            CastleType::WK => self.0 & 0b0010 != 0,
            CastleType::BQ => self.0 & 0b0100 != 0,
            CastleType::BK => self.0 & 0b1000 != 0,
        }
    }

    /// The castles of `side` that the rights allow, in the order WQ, WK, BQ,
    /// BK.
    pub fn get_available(&self, side: Color) -> (r: Vec<CastleType>)
        ensures
            r@ == available_prefix(self.0, side, 4),
    {
        let all = CastleType::get_all();
        let mut result: Vec<CastleType> = Vec::new();
        let mut i: usize = 0;
        while i < 4
            invariant
                i <= 4,
                all@ == seq![CastleType::WQ, CastleType::WK, CastleType::BQ, CastleType::BK],
                result@ == available_prefix(self.0, side, i as int),
            decreases 4 - i,
        {
            let ctype = all[i];
            if ctype.color() == side && self.is_available(&ctype) {
                result.push(ctype);
            }
            i = i + 1;
        }
        result
    }

    /// The rights spelled by a castling field such as `KQkq` or `-`.
    pub fn from_field(field: &str) -> (r: Result<CastlingRights, InvalidCastlingRights>)
        ensures
            match rights_of_chars(field@) {
                Some(b) => r == Ok::<CastlingRights, InvalidCastlingRights>(CastlingRights(b)),
                None => r is Err,
            },
    {
        let mut rights = CastlingRights::none();
        let n = field.unicode_len();
        let mut i: usize = 0;
        proof {
            assert(field@.take(0) =~= Seq::<char>::empty());
        }
        while i < n
            invariant
                n == field@.len(),
                i <= n,
                rights_of_chars(field@.take(i as int)) == Some(rights.0),
            decreases n - i,
        {
            let ch = field.get_char(i);
            proof {
                assert(field@.take(i + 1).drop_last() =~= field@.take(i as int));
                assert(field@.take(i + 1).last() == ch);
            }
            if ch == 'Q' {
                rights.add(CastlingRights::wq());
            } else if ch == 'K' {
                rights.add(CastlingRights::wk());
            } else if ch == 'q' {
                rights.add(CastlingRights::bq());
            } else if ch == 'k' {
                rights.add(CastlingRights::bk());
            } else if ch == '-' {
            } else {
                proof {
                    lemma_rights_of_chars_none_extends(field@, i as int + 1);
                }
                return Err(InvalidCastlingRights);
            }
            i = i + 1;
        }
        proof {
            assert(field@.take(n as int) =~= field@);
        }
        Ok(rights)
    }

    /// The castling rights of a full FEN string, read from its third
    /// space-separated field:
    ///
    /// ```text
    /// rnbqkbnr/pppppppp/8/8/8/8/PPPPPPPP/RNBQKBNR w KQkq - 0 1
    ///                                               ^^^^
    /// ```
    pub fn from_fen(fen: &str) -> (r: Result<CastlingRights, InvalidCastlingRights>)
        ensures
            fields(fen@).len() < 3 ==> r is Err,
            fields(fen@).len() >= 3 ==> match rights_of_chars(fields(fen@)[2]) {
                Some(b) => r == Ok::<CastlingRights, InvalidCastlingRights>(CastlingRights(b)),
                None => r is Err,
            },
    {
        let parts = split_fields(fen);
        if parts.len() < 3 {
            return Err(InvalidCastlingRights);
        }
        CastlingRights::from_field(parts[2])
    }
}

/// Once a prefix of a castling field is invalid, the whole field is.
pub proof fn lemma_rights_of_chars_none_extends(s: Seq<char>, k: int)
    requires
        0 <= k <= s.len(),
        rights_of_chars(s.take(k)) is None,
    ensures
        rights_of_chars(s) is None,
    decreases s.len() - k,
{
    if k < s.len() {
        assert(s.take(k + 1).drop_last() =~= s.take(k));
        lemma_rights_of_chars_none_extends(s, k + 1);
    } else {
        assert(s.take(k) =~= s);
    }
}


impl CastleType {
    /// Whether the castle may be played on `board`: none of the squares the
    /// king stands on, passes over or lands on is attacked by the other side.
    pub fn is_allowed(self, board: &Board) -> (r: bool)
        ensures
            r == (self.vuln_squares() & board.spec_attacked_with(
                self.spec_color().spec_opp(),
                board.occ(self.spec_color().spec_opp()),
                board.occ(self.spec_color()),
            ) == 0),
    {
        let opp = self.color().opp();
        let attacked_squares = board.attacked_by(opp);
        !self.vuln().has_overlap(attacked_squares)
    }
}


impl core::str::FromStr for CastlingRights {
    type Err = InvalidCastlingRights;

    fn from_str(fen: &str) -> (r: Result<CastlingRights, InvalidCastlingRights>)
        ensures
            fields(fen@).len() < 3 ==> r is Err,
            fields(fen@).len() >= 3 ==> match rights_of_chars(fields(fen@)[2]) {
                Some(b) => r == Ok::<CastlingRights, InvalidCastlingRights>(CastlingRights(b)),
                None => r is Err,
            },
    {
        CastlingRights::from_fen(fen)
    }
}


/// Granting a right makes it available, withdrawing it makes it
/// unavailable (and withdrawing it again changes nothing), flipping it
/// makes it available exactly when it was not, and none of these touches the
/// other rights; flipping a right twice restores the rights.
pub proof fn lemma_rights_add_remove(b: u8, c: CastleType, other: CastleType)
    requires
        other != c,
    ensures
        CastlingRights(b | castle_bit(c)).spec_is_available(c),
        !CastlingRights(b & !castle_bit(c)).spec_is_available(c),
        CastlingRights(b | castle_bit(c)).spec_is_available(other) == CastlingRights(b).spec_is_available(other),
        CastlingRights(b & !castle_bit(c)).spec_is_available(other) == CastlingRights(b).spec_is_available(other),
        (b & !castle_bit(c)) & !castle_bit(c) == b & !castle_bit(c),
        CastlingRights(b ^ castle_bit(c)).spec_is_available(c) == !CastlingRights(b).spec_is_available(c),
        CastlingRights(b ^ castle_bit(c)).spec_is_available(other) == CastlingRights(b).spec_is_available(other),
        (b ^ castle_bit(c)) ^ castle_bit(c) == b,
{
    let x = castle_bit(c);
    let y = castle_bit(other);
    assert(x == 1u8 || x == 2u8 || x == 4u8 || x == 8u8);
    assert(y == 1u8 || y == 2u8 || y == 4u8 || y == 8u8);
    assert(x != y);
    assert((b | x) & x != 0 && (b & !x) & x == 0 && (((b | x) & y != 0) == (b & y != 0)) && (((b & !x) & y
        != 0) == (b & y != 0)) && (b & !x) & !x == b & !x && (((b ^ x) & x != 0) == !(b & x != 0)) && (((b ^ x)
        & y != 0) == (b & y != 0)) && (b ^ x) ^ x == b) by (bit_vector)
        requires
            x == 1u8 || x == 2u8 || x == 4u8 || x == 8u8,
            y == 1u8 || y == 2u8 || y == 4u8 || y == 8u8,
            x != y,
    ;
}

/// The castles offered for a side are castles of that side which the rights
/// allow, each at most once.
pub proof fn lemma_available_sound(rights: u8, side: Color, n: int)
    requires
        0 <= n <= 4,
    ensures
        forall|k: int| 0 <= k < available_prefix(rights, side, n).len() ==> {
            let c = #[trigger] available_prefix(rights, side, n)[k];
            c.spec_color() == side && rights & castle_bit(c) != 0 && c.idx() < n
        },
        forall|k: int, l: int| 0 <= k < l < available_prefix(rights, side, n).len() ==>
            #[trigger] available_prefix(rights, side, n)[k].idx() < #[trigger] available_prefix(rights, side, n)[l].idx(),
    decreases n,
{
    if n > 0 {
        lemma_available_sound(rights, side, n - 1);
    }
}

/// A castle's king move is recognised as that castle.
pub proof fn lemma_king_move_castle(c: CastleType)
    ensures
        castle_of_target(c.spec_king_move().spec_tgt()) == Some(c),
{
    let v = c.spec_king_move().0;
    assert((4228u16 & 0xFC0u16) >> 6u16 == 2 && (4484u16 & 0xFC0u16) >> 6u16 == 6 && (7868u16 & 0xFC0u16) >> 6u16
        == 58 && (8124u16 & 0xFC0u16) >> 6u16 == 62) by (bit_vector);
}

} // verus!
