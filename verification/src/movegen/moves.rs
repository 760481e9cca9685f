//! Moves packed into 16 bits, and the generation of moves from a board.
use vstd::prelude::*;
use crate::board::{Board, Square, Piece, PieceType, Color};
use crate::movegen::castling::{CastleType, available_prefix, lemma_available_sound, castle_bit};
use crate::board::{checkers_union, attack_union, lemma_king_danger_lifts_king};
use vstd::std_specs::bits::axiom_u64_trailing_zeros;
use crate::bitboard::{Bitboard, Step, bit, tz, has_bit, is_single, ray, offset_index, union_all, lemma_zero_bits, lemma_or_assoc, lemma_bit_square, lemma_contains_bit, lemma_bits_or, lemma_bits_and, lemma_bits_not, lemma_has_bit_bit};

verus! {

/// A move, packed into a `u16`:
///
/// - bits 0 to 5: the source square,
/// - bits 6 to 11: the target square,
/// - bit 12: castle, bit 13: pawn double push, bit 14: en-passant capture.
#[derive(Debug, PartialEq, Eq, Structural, Clone, Copy, Default)]
pub struct Move(pub u16);

impl Move {
    pub const SRC_MASK: u16 = 0b0000_000000_111111;
    pub const TGT_MASK: u16 = 0b0000_111111_000000;
    pub const CASTLE_MASK: u16 = 0b0001_000000_000000;
    pub const DPUSH_MASK: u16 = 0b0010_000000_000000;
    pub const EP_MASK: u16 = 0b0100_000000_000000;

    /// The index of the source square.
    pub open spec fn spec_src(self) -> int {
        (self.0 & 0x3Fu16) as int
    }

    /// The index of the target square.
    pub open spec fn spec_tgt(self) -> int {
        ((self.0 & 0xFC0u16) >> 6u16) as int
    }

    pub open spec fn spec_is_castle(self) -> bool {
        self.0 & 0x1000u16 != 0
    }

    pub open spec fn spec_is_double_push(self) -> bool {
        self.0 & 0x2000u16 != 0
    }

    pub open spec fn spec_is_en_passant(self) -> bool {
        self.0 & 0x4000u16 != 0
    }

    /// The move with no flag set, from `src` to `tgt`.
    pub open spec fn spec_new(src: Square, tgt: Square) -> Move {
        Move((src.idx() + 64 * tgt.idx()) as u16)
    }

    /// The move with the null encoding, used to fill empty slots.
    pub fn null() -> (r: Move)
        ensures
            r.0 == 0,
    {
        Move(0)
    }

    /// The plain move from `src` to `tgt`, with no flag set.
    pub fn new(src: Square, tgt: Square) -> (r: Move)
        ensures
            r == Move::spec_new(src, tgt),
    {
        let s = src.index() as u16;
        let t = tgt.index() as u16;
        let mut value = 0u16;
        value = value | s;
        value = value | (t << 6u16);
        assert(value == s + 64 * t) by (bit_vector)
            requires
                value == (0u16 | s) | (t << 6u16),
                s < 64,
                t < 64,
        ;
        Move(value)
    }

    /// The source square of the move.
    pub fn src(self) -> (r: Square)
        ensures
            r.idx() == self.spec_src(),
    {
        let m = self.0;
        let v = m & Self::SRC_MASK;
        assert(v < 64) by (bit_vector)
            requires
                v == m & 0x3Fu16,
        ;
        Square::from_index(v as usize)
    }

    /// The target square of the move.
    pub fn tgt(self) -> (r: Square)
        ensures
            r.idx() == self.spec_tgt(),
    {
        let m = self.0;
        let v = (m & Self::TGT_MASK) >> 6u16;
        assert(v < 64) by (bit_vector)
            requires
                v == (m & 0xFC0u16) >> 6u16,
        ;
        Square::from_index(v as usize)
    }

    pub fn is_castle(self) -> (r: bool)
        ensures
            r == self.spec_is_castle(),
    {
        self.0 & Self::CASTLE_MASK != 0
    }

    /// Flag the move as a castle.
    pub fn set_castle(&mut self)
        ensures
            final(self).0 == old(self).0 | 0x1000u16,
    {
        self.0 = self.0 | Self::CASTLE_MASK;
    }

    pub fn is_double_push(self) -> (r: bool)
        ensures
            r == self.spec_is_double_push(),
    {
        self.0 & Self::DPUSH_MASK != 0
    }

    /// Flag the move as a pawn double push.
    pub fn set_double_push(&mut self)
        ensures
            final(self).0 == old(self).0 | 0x2000u16,
    {
        self.0 = self.0 | Self::DPUSH_MASK;
    }

    pub fn is_en_passant(self) -> (r: bool)
        ensures
            r == self.spec_is_en_passant(),
    {
        self.0 & Self::EP_MASK != 0
    }

    /// Flag the move as an en-passant capture.
    pub fn set_en_passant(&mut self)
        ensures
            final(self).0 == old(self).0 | 0x4000u16,
    {
        self.0 = self.0 | Self::EP_MASK;
    }
}

/// A move built from two squares gives them back, and carries no flag.
pub proof fn lemma_new_round_trip(src: Square, tgt: Square)
    ensures
        Move::spec_new(src, tgt).spec_src() == src.idx(),
        Move::spec_new(src, tgt).spec_tgt() == tgt.idx(),
        !Move::spec_new(src, tgt).spec_is_castle(),
        !Move::spec_new(src, tgt).spec_is_double_push(),
        !Move::spec_new(src, tgt).spec_is_en_passant(),
{
    let s = src.idx() as u16;
    let t = tgt.idx() as u16;
    let v = (src.idx() + 64 * tgt.idx()) as u16;
    assert(v == s + 64 * t);
    assert((v & 0x3Fu16) == s && ((v & 0xFC0u16) >> 6u16) == t && v & 0x1000u16 == 0
        && v & 0x2000u16 == 0 && v & 0x4000u16 == 0) by (bit_vector)
        requires
            v == s + 64 * t,
            s < 64,
            t < 64,
    ;
}

/// Setting a flag keeps the squares of a move and the other flags, and sets
/// that flag; setting it twice is setting it once.
pub proof fn lemma_flags_independent(m: u16, mask: u16)
    requires
        mask == 0x1000u16 || mask == 0x2000u16 || mask == 0x4000u16,
    ensures
        Move(m | mask).spec_src() == Move(m).spec_src(),
        Move(m | mask).spec_tgt() == Move(m).spec_tgt(),
        Move(m | mask).spec_is_castle() == (Move(m).spec_is_castle() || mask == 0x1000u16),
        Move(m | mask).spec_is_double_push() == (Move(m).spec_is_double_push() || mask == 0x2000u16),
        Move(m | mask).spec_is_en_passant() == (Move(m).spec_is_en_passant() || mask == 0x4000u16),
        (m | mask) | mask == m | mask,
{
    assert(((m | mask) & 0x3Fu16) == (m & 0x3Fu16) && ((m | mask) & 0xFC0u16) == (m & 0xFC0u16)
        && (((m | mask) & 0x1000u16 != 0) == ((m & 0x1000u16 != 0) || mask == 0x1000u16))
        && (((m | mask) & 0x2000u16 != 0) == ((m & 0x2000u16 != 0) || mask == 0x2000u16))
        && (((m | mask) & 0x4000u16 != 0) == ((m & 0x4000u16 != 0) || mask == 0x4000u16))
        && ((m | mask) | mask == m | mask))
        by (bit_vector)
        requires
            mask == 0x1000u16 || mask == 0x2000u16 || mask == 0x4000u16,
    ;
}


/// The bit of the square reached by (`dr`, `df`) from square index `start`,
/// or nothing when that square lies off the board.
pub open spec fn offset_bit(start: int, dr: int, df: int) -> u64 {
    match offset_index(start, dr, df) {
        Some(j) => bit(j),
        None => 0u64,
    }
}

/// The union of the rays from `start` along each of `dirs`.
pub open spec fn rays_union(start: int, dirs: Seq<Step>, n: nat, blockers: u64) -> u64
    decreases dirs.len(),
{
    if dirs.len() == 0 {
        0u64
    } else {
        rays_union(start, dirs.drop_last(), n, blockers) | ray(
            start,
            dirs.last().delta_rank as int,
            dirs.last().delta_file as int,
            n,
            blockers,
        )
    }
}

/// The eight knight jumps, in the order this move generator tries them.
pub open spec fn knight_steps() -> Seq<Step> {
    seq![
        Step { delta_rank: 1, delta_file: 2 },
        Step { delta_rank: 1, delta_file: -2isize },
        Step { delta_rank: -1isize, delta_file: 2 },
        Step { delta_rank: -1isize, delta_file: -2isize },
        Step { delta_rank: 2, delta_file: 1 },
        Step { delta_rank: 2, delta_file: -1isize },
        Step { delta_rank: -2isize, delta_file: 1 },
        Step { delta_rank: -2isize, delta_file: -1isize },
    ]
}

impl Piece {
    /// How many squares the piece may travel in one direction: 2 for a pawn
    /// on its starting squares, 1 for other pawns, knights and kings, and 7
    /// (the whole board) for sliders.
    pub open spec fn spec_range(self) -> nat {
        match self.piece_type {
            PieceType::Pawn => if Bitboard::spec_pawn_rank(self.color) & self.position.0
                == self.position.0 {
                2
            } else {
                1
            },
            PieceType::Knight | PieceType::King => 1,
            _ => 7,
        }
    }

    /// The directions the piece moves in.
    pub open spec fn spec_directions(self) -> Seq<Step> {
        match self.piece_type {
            PieceType::Pawn => seq![Step::spec_forward(self.color)],
            PieceType::Rook => Step::spec_ortho_dirs(),
            PieceType::Knight => knight_steps(),
            PieceType::Bishop => Step::spec_diag_dirs(),
            PieceType::King | PieceType::Queen => Step::spec_ortho_dirs() + Step::spec_diag_dirs(),
        }
    }

    /// The squares a pawn of this piece's side captures on: one rank forward,
    /// one file to either side.
    pub open spec fn pawn_capture_bits(self) -> u64 {
        let dr = Step::spec_forward(self.color).delta_rank as int;
        offset_bit(self.position.lsb(), dr, -1) | offset_bit(self.position.lsb(), dr, 1)
    }

    /// The squares the piece sees, given the squares occupied by its own side
    /// (`ours`) and by the other side (`theirs`).
    ///
    /// Each direction is followed up to the piece's range, stopping at the
    /// first occupied square, which is included. A pawn does not see the
    /// opponent's pieces ahead of it, but sees those it can capture
    /// diagonally.
    pub open spec fn spec_visible(self, ours: u64, theirs: u64) -> u64 {
        let along = rays_union(
            self.position.lsb(),
            self.spec_directions(),
            self.spec_range(),
            ours | theirs,
        );
        if self.piece_type == PieceType::Pawn {
            (along & !theirs) | (self.pawn_capture_bits() & theirs)
        } else {
            along
        }
    }

    /// The squares the piece attacks: the squares a pawn captures on, whether
    /// or not a piece stands there; for other pieces, the squares they see.
    pub open spec fn spec_attacks(self, ours: u64, theirs: u64) -> u64 {
        if self.piece_type == PieceType::Pawn {
            self.pawn_capture_bits()
        } else {
            self.spec_visible(ours, theirs)
        }
    }

    /// The ray the piece sees along its `i`-th direction.
    pub open spec fn spec_ray(self, i: int, blockers: u64) -> u64 {
        ray(
            self.position.lsb(),
            self.spec_directions()[i].delta_rank as int,
            self.spec_directions()[i].delta_file as int,
            self.spec_range(),
            blockers,
        )
    }

    /// How many squares the piece may travel in one direction.
    pub fn range(&self) -> (r: usize)
        ensures
            r == self.spec_range(),
    {
        match self.piece_type() {
            PieceType::Pawn => {
                let hasnt_moved = self.position.on_pawn_rank(self.color());
                if hasnt_moved {
                    2
                } else {
                    1
                }
            },
            PieceType::Knight | PieceType::King => 1,
            _ => 7,
        }
    }

    /// The directions the piece moves in.
    pub fn directions(&self) -> (r: Vec<Step>)
        ensures
            r@ == self.spec_directions(),
    {
        match self.piece_type() {
            PieceType::Pawn => {
                let v = vec![Step::forward(self.color)];
                assert(v@ =~= seq![Step::spec_forward(self.color)]);
                v
            },
            PieceType::Rook => {
                let dirs = Step::ortho_dirs();
                let mut v: Vec<Step> = Vec::new();
                v.push(dirs[0]);
                v.push(dirs[1]);
                v.push(dirs[2]);
                v.push(dirs[3]);
                assert(v@ =~= Step::spec_ortho_dirs());
                v
            },
            PieceType::Knight => {
                let v = vec![
                    Step::new(1, 2),
                    Step::new(1, -2),
                    Step::new(-1, 2),
                    Step::new(-1, -2),
                    Step::new(2, 1),
                    Step::new(2, -1),
                    Step::new(-2, 1),
                    Step::new(-2, -1),
                ];
                assert(v@ =~= knight_steps());
                v
            },
            PieceType::Bishop => {
                let dirs = Step::diag_dirs();
                let mut v: Vec<Step> = Vec::new();
                v.push(dirs[0]);
                v.push(dirs[1]);
                v.push(dirs[2]);
                v.push(dirs[3]);
                assert(v@ =~= Step::spec_diag_dirs());
                v
            },
            PieceType::King | PieceType::Queen => {
                let ortho = Step::ortho_dirs();
                let diag = Step::diag_dirs();
                let mut v: Vec<Step> = Vec::new();
                v.push(ortho[0]);
                v.push(ortho[1]);
                v.push(ortho[2]);
                v.push(ortho[3]);
                v.push(diag[0]);
                v.push(diag[1]);
                v.push(diag[2]);
                v.push(diag[3]);
                assert(v@ =~= Step::spec_ortho_dirs() + Step::spec_diag_dirs());
                v
            },
        }
    }

    /// The squares a pawn of this piece's side on this piece's square
    /// captures on.
    fn pawn_captures(&self) -> (r: Bitboard)
        ensures
            r.0 == self.pawn_capture_bits(),
    {
        let forward = Step::forward(self.color());
        let mut captures: u64 = 0;
        match self.position.offset(forward + Step::left()) {
            Some(b) => {
                captures = captures | b.0;
            },
            None => {},
        }
        match self.position.offset(forward + Step::right()) {
            Some(b) => {
                captures = captures | b.0;
            },
            None => {},
        }
        proof {
            let l = offset_bit(self.position.lsb(), forward.delta_rank as int, -1);
            let rt = offset_bit(self.position.lsb(), forward.delta_rank as int, 1);
            lemma_or_assoc(l, 0, 0);
            lemma_or_assoc(0, 0, 0);
            lemma_or_assoc(rt, 0, 0);
        }
        Bitboard(captures)
    }

    /// The squares the piece attacks, given the squares occupied by its own
    /// side and by the other side.
    pub fn attacks(&self, ours: Bitboard, theirs: Bitboard) -> (r: Bitboard)
        ensures
            r.0 == self.spec_attacks(ours.0, theirs.0),
    {
        if self.piece_type == PieceType::Pawn {
            self.pawn_captures()
        } else {
            self.visible_squares(ours, theirs)
        }
    }

    /// The squares the piece sees, given the squares occupied by its own side
    /// and by the other side.
    pub fn visible_squares(&self, ours: Bitboard, theirs: Bitboard) -> (r: Bitboard)
        ensures
            r.0 == self.spec_visible(ours.0, theirs.0),
    {
        let blockers = ours | theirs;
        let dirs = self.directions();
        let range = self.range();
        let mut visible: u64 = 0;
        let mut i: usize = 0;
        while i < dirs.len()
            invariant
                i <= dirs@.len(),
                dirs@ == self.spec_directions(),
                range == self.spec_range(),
                blockers.0 == ours.0 | theirs.0,
                visible == rays_union(self.position.lsb(), dirs@.take(i as int), range as nat, blockers.0),
            decreases dirs@.len() - i,
        {
            let step = dirs[i];
            let seen = Bitboard::ray_from(self.position, step, range, blockers);
            proof {
                assert(dirs@.take(i + 1).drop_last() =~= dirs@.take(i as int));
            }
            visible = visible | seen.0;
            i = i + 1;
        }
        proof {
            assert(dirs@.take(dirs@.len() as int) =~= dirs@);
        }
        if self.piece_type == PieceType::Pawn {
            visible = visible & !theirs.0;
            let forward = Step::forward(self.color());
            let mut captures: u64 = 0;
            match self.position.offset(forward + Step::left()) {
                Some(b) => {
                    captures = captures | b.0;
                },
                None => {},
            }
            match self.position.offset(forward + Step::right()) {
                Some(b) => {
                    captures = captures | b.0;
                },
                None => {},
            }
            proof {
                let l = offset_bit(self.position.lsb(), forward.delta_rank as int, -1);
                let rt = offset_bit(self.position.lsb(), forward.delta_rank as int, 1);
                lemma_or_assoc(l, 0, 0);
                lemma_or_assoc(0, 0, 0);
                lemma_or_assoc(rt, 0, 0);
            }
            visible = visible | (captures & theirs.0);
        }
        Bitboard(visible)
    }

    /// The ray the piece sees along each of its directions, stopping at
    /// (and including) the first blocker.
    pub fn visible_rays(&self, blockers: Bitboard) -> (r: Vec<Bitboard>)
        ensures
            r@.len() == self.spec_directions().len(),
            forall|i: int| 0 <= i < r@.len() ==> #[trigger] r@[i].0 == self.spec_ray(i, blockers.0),
    {
        let dirs = self.directions();
        let range = self.range();
        let mut rays: Vec<Bitboard> = Vec::new();
        let mut i: usize = 0;
        while i < dirs.len()
            invariant
                i <= dirs@.len(),
                dirs@ == self.spec_directions(),
                range == self.spec_range(),
                rays@.len() == i,
                forall|k: int| 0 <= k < i ==> #[trigger] rays@[k].0 == self.spec_ray(k, blockers.0),
            decreases dirs@.len() - i,
        {
            let seen = Bitboard::ray_from(self.position, dirs[i], range, blockers);
            rays.push(seen);
            i = i + 1;
        }
        rays
    }
}


/// The first of `rays`, from index `i` on, that holds all of `target`.
pub open spec fn first_containing(rays: Seq<u64>, target: u64, i: int) -> Option<u64>
    decreases rays.len() - i,
{
    if i < 0 || i >= rays.len() {
        None
    } else if rays[i] & target == target {
        Some(rays[i])
    } else {
        first_containing(rays, target, i + 1)
    }
}


/// The plain move from square index `src` to square index `tgt`, flagged as
/// a double push when it is a pawn's.
pub open spec fn target_move(src: int, tgt: int, pawn: bool) -> Move {
    let plain = Move((src + 64 * tgt) as u16);
    if pawn && ((src / 8 == 1 && tgt / 8 == 3 || src / 8 == 6 && tgt / 8 == 4) && src % 8 == tgt % 8) {
        Move(plain.0 | 0x2000u16)
    } else {
        plain
    }
}

/// The moves from `src` to each square of `targets` below index `n`, in
/// increasing order of target.
pub open spec fn target_moves(src: int, pawn: bool, targets: u64, n: int) -> Seq<Move>
    decreases n,
{
    if n <= 0 {
        Seq::<Move>::empty()
    } else {
        let prev = target_moves(src, pawn, targets, n - 1);
        if has_bit(targets, n - 1) {
            prev.push(target_move(src, n - 1, pawn))
        } else {
            prev
        }
    }
}

/// The king moves of the castles in `avail` that can be played on `board`:
/// the squares between king and rook are empty, and the king's path is not
/// attacked. They come in the order of `avail`.
pub open spec fn castle_moves(board: Board, avail: Seq<CastleType>) -> Seq<Move>
    decreases avail.len(),
{
    if avail.len() == 0 {
        Seq::<Move>::empty()
    } else {
        let prev = castle_moves(board, avail.drop_last());
        let c = avail.last();
        let opp = c.spec_color().spec_opp();
        if c.vuln_squares() & board.spec_attacked_with(opp, board.occ(opp), board.occ(c.spec_color())) == 0
            && c.path_squares() & board.occ_all() == 0 {
            prev.push(c.spec_king_move())
        } else {
            prev
        }
    }
}

impl Board {
    /// The side to move's opponent.
    pub open spec fn spec_opp(self) -> Color {
        self.current.spec_opp()
    }

    /// The squares occupied by either side, as the move generator sees them.
    pub open spec fn spec_blockers(self) -> u64 {
        self.occ(self.current) | self.occ(self.spec_opp())
    }

    /// The pieces of the other side that see the king of the side to move.
    pub open spec fn move_checkers(self) -> u64 {
        self.spec_checkers(self.spec_opp())
    }

    pub open spec fn spec_in_check(self) -> bool {
        self.move_checkers() != 0
    }

    pub open spec fn spec_in_double_check(self) -> bool {
        self.spec_in_check() && !is_single(self.move_checkers())
    }

    /// The rays of the piece on the lowest square of the checkers.
    pub open spec fn checker_rays(self) -> Seq<u64> {
        match self.piece_list@[tz(self.move_checkers())] {
            Some(p) => Seq::new(p.spec_directions().len(), |j: int| p.spec_ray(j, self.spec_blockers())),
            None => Seq::<u64>::empty(),
        }
    }

    /// The first ray of the checking piece that holds the king of the side to
    /// move.
    pub open spec fn check_ray(self) -> Option<u64> {
        first_containing(self.checker_rays(), self.spec_bb(PieceType::King, self.current), 0)
    }

    /// The squares a non-king piece may move to when in check from a single
    /// piece: the ray of the checker that holds the king, or none when the
    /// checker reaches the king other than along a ray (a pawn's capture).
    pub open spec fn check_ray_bits(self) -> u64 {
        match self.check_ray() {
            Some(r) => r,
            None => 0u64,
        }
    }

    /// The squares of the side to move's pieces that lie on a pin ray.
    pub open spec fn pinned(self) -> u64 {
        self.occ(self.current) & union_all(self.spec_pinrays(self.current))
    }

    /// The targets the move generator keeps for piece `p` of the side to move.
    pub open spec fn pseudo_targets(self, p: Piece) -> u64 {
        let base = p.spec_visible(self.occ(self.current), self.occ(self.spec_opp())) & !self.occ(self.current);
        let a = if p.piece_type == PieceType::King {
            base & !self.spec_king_danger(self.current)
        } else {
            base
        };
        let b = if self.spec_in_check() && p.piece_type != PieceType::King {
            a & (self.move_checkers() | self.check_ray_bits())
        } else {
            a
        };
        if self.pinned() & p.position.0 == p.position.0 {
            b & first_containing(self.spec_pinrays(self.current), p.position.0, 0)->0
        } else {
            b
        }
    }

    /// Whether pawn `p` of the side to move sees the en-passant square `ep`.
    pub open spec fn can_capture_ep(self, p: Piece, ep: Square) -> bool {
        p.spec_visible(self.occ(self.current), bit(ep.idx())) & bit(ep.idx()) == bit(ep.idx())
    }

    /// The en-passant capture of the piece `p` on square index `src`, when it
    /// is a pawn that sees the en-passant square and the capture uncovers no
    /// slider check on its own king.
    pub open spec fn ep_moves(self, src: int, p: Piece) -> Seq<Move> {
        match self.en_passant {
            Some(ep) => if p.piece_type == PieceType::Pawn && self.can_capture_ep(p, ep) {
                let captured = ep.forward_index(self.spec_opp())->0;
                if self.spec_is_xray_check(self.current, p.position.0 | bit(captured)) {
                    Seq::<Move>::empty()
                } else {
                    seq![Move(((src + 64 * ep.idx()) + 0x4000) as u16)]
                }
            } else {
                Seq::<Move>::empty()
            },
            None => Seq::<Move>::empty(),
        }
    }

    /// The moves the generator makes for the piece on square index `i`.
    pub open spec fn moves_for(self, i: int) -> Seq<Move> {
        let p = self.piece_list@[i]->0;
        if self.spec_in_double_check() && p.piece_type != PieceType::King {
            Seq::<Move>::empty()
        } else {
            target_moves(i, p.piece_type == PieceType::Pawn, self.pseudo_targets(p), 64)
                + self.ep_moves(i, p)
        }
    }

    /// The moves of the pieces of the side to move on square indices below
    /// `n`, square by square.
    pub open spec fn source_moves(self, n: int) -> Seq<Move>
        decreases n,
    {
        if n <= 0 {
            Seq::<Move>::empty()
        } else if has_bit(self.occ(self.current), n - 1) {
            self.source_moves(n - 1) + self.moves_for(n - 1)
        } else {
            self.source_moves(n - 1)
        }
    }

    /// The moves the generator returns: the moves of each piece of the side
    /// to move, square by square, then the allowed castles.
    pub open spec fn spec_legal_moves(self) -> Seq<Move> {
        self.source_moves(64) + castle_moves(self, available_prefix(self.castling_rights.0, self.current, 4))
    }

    /// The boards the move generator is defined on: the pieces of the side to
    /// move are all listed, every listed piece stands where the list says, and
    /// the square of a pawn taken en passant lies on the board when one of the
    /// side's pawns can take.
    pub open spec fn legal_moves_domain(self) -> bool {
        &&& forall|i: int| 0 <= i < 64 && has_bit(self.occ(self.current), i) ==> (#[trigger] self.piece_list@[i]) is Some
        &&& forall|i: int| 0 <= i < 64 ==> (#[trigger] self.piece_list@[i] matches Some(p) ==> p.position.0 == bit(i))
        &&& match self.en_passant {
            Some(ep) => (exists|i: int|
                0 <= i < 64 && has_bit(self.occ(self.current), i) && (#[trigger] self.piece_list@[i])->0.piece_type
                    == PieceType::Pawn && self.can_capture_ep(self.piece_list@[i]->0, ep)) ==> ep.forward_index(
                self.spec_opp(),
            ) is Some,
            None => true,
        }
    }
}


/// The union of the positions of listed pieces holds only squares whose
/// list entry is a piece.
pub proof fn lemma_checkers_bits(list: Seq<Option<Piece>>, side: Color, ours: u64, theirs: u64, target: u64, n: int)
    requires
        0 <= n <= list.len(),
        list.len() == 64,
        forall|i: int| 0 <= i < list.len() ==> (#[trigger] list[i] matches Some(p) ==> p.position.0 == bit(i)),
    ensures
        forall|j: int| #[trigger] has_bit(checkers_union(list, side, ours, theirs, target, n), j) ==> 0 <= j < n
            && list[j] is Some,
    decreases n,
{
    if n == 0 {
        lemma_zero_bits();
    } else {
        lemma_checkers_bits(list, side, ours, theirs, target, n - 1);
        let prev = checkers_union(list, side, ours, theirs, target, n - 1);
        match list[n - 1] {
            Some(p) => {
                lemma_bits_or(prev, p.position.0);
                assert forall|j: int| #[trigger] has_bit(prev | p.position.0, j) implies 0 <= j < n && list[j] is Some by {
                    if has_bit(p.position.0, j) {
                        lemma_has_bit_bit(n - 1, j);
                    }
                }
            },
            None => {},
        }
    }
}

/// The lowest square of a non-empty word is one of its squares.
pub proof fn lemma_tz_has_bit(x: u64)
    requires
        x != 0,
    ensures
        0 <= tz(x) < 64,
        has_bit(x, tz(x)),
{
    axiom_u64_trailing_zeros(x);
}

/// A square of the union of some rays lies on one of them, and then a first
/// ray holding it exists.
pub proof fn lemma_union_all_first(rays: Seq<u64>, i: int)
    requires
        0 <= i < 64,
        has_bit(union_all(rays), i),
    ensures
        first_containing(rays, bit(i), 0) is Some,
    decreases rays.len(),
{
    if rays.len() == 0 {
        lemma_zero_bits();
    } else {
        let prev = union_all(rays.drop_last());
        lemma_bits_or(prev, rays.last());
        if has_bit(prev, i) {
            lemma_union_all_first(rays.drop_last(), i);
            lemma_first_containing_prefix(rays.drop_last(), rays, bit(i), 0);
        } else {
            lemma_contains_bit(rays.last(), i);
            lemma_first_containing_exists(rays, bit(i), 0, rays.len() - 1);
        }
    }
}

/// When ray `k` holds the target, a first ray from `start` holding it
/// exists.
pub proof fn lemma_first_containing_exists(rays: Seq<u64>, t: u64, start: int, k: int)
    requires
        0 <= start <= k < rays.len(),
        rays[k] & t == t,
    ensures
        first_containing(rays, t, start) is Some,
    decreases k - start,
{
    if start < k && rays[start] & t != t {
        lemma_first_containing_exists(rays, t, start + 1, k);
    }
}

/// A ray holding the target found among a prefix of the rays is found
/// among all of them.
pub proof fn lemma_first_containing_prefix(prefix: Seq<u64>, rays: Seq<u64>, t: u64, start: int)
    requires
        0 <= start,
        prefix.len() <= rays.len(),
        forall|j: int| 0 <= j < prefix.len() ==> prefix[j] == rays[j],
        first_containing(prefix, t, start) is Some,
    ensures
        first_containing(rays, t, start) is Some,
    decreases prefix.len() - start,
{
    if start < prefix.len() && prefix[start] & t != t {
        lemma_first_containing_prefix(prefix, rays, t, start + 1);
    }
}

/// The first of `rays` that holds all of `target`.
fn find_containing(rays: &Vec<Bitboard>, target: Bitboard) -> (r: Option<Bitboard>)
    ensures
        match first_containing(rays@.map_values(|b: Bitboard| b.0), target.0, 0) {
            Some(v) => r matches Some(b) && b.0 == v,
            None => r is None,
        },
{
    let ghost view = rays@.map_values(|b: Bitboard| b.0);
    let mut i: usize = 0;
    while i < rays.len()
        invariant
            i <= rays@.len(),
            view == rays@.map_values(|b: Bitboard| b.0),
            first_containing(view, target.0, 0) == first_containing(view, target.0, i as int),
        decreases rays@.len() - i,
    {
        if rays[i].contains(target) {
            return Some(rays[i]);
        }
        i = i + 1;
    }
    None
}


/// Append the moves from `source` to each square of `targets`, in increasing
/// order of target.
fn push_target_moves(source: Square, pawn: bool, targets: Bitboard, moves: &mut Vec<Move>)
    ensures
        final(moves)@ == old(moves)@ + target_moves(source.idx(), pawn, targets.0, 64),
{
    let mut t: usize = 0;
    proof {
        assert(old(moves)@ + Seq::<Move>::empty() =~= old(moves)@);
    }
    while t < 64
        invariant
            t <= 64,
            moves@ == old(moves)@ + target_moves(source.idx(), pawn, targets.0, t as int),
        decreases 64 - t,
    {
        let tu = t as u64;
        let x = targets.0;
        if (x >> tu) & 1u64 == 1u64 {
            let target = Square::from_index(t);
            let mut mv = Move::new(source, target);
            if pawn && Square::is_double_push(source, target) {
                mv.set_double_push();
            }
            proof {
                assert(old(moves)@ + target_moves(source.idx(), pawn, targets.0, t as int) + seq![mv]
                    =~= old(moves)@ + target_moves(source.idx(), pawn, targets.0, t as int).push(mv));
            }
            moves.push(mv);
        }
        t = t + 1;
    }
}

impl Board {
    /// The moves the generator makes for the piece on `source`.
    fn moves_from(
        &self,
        source: Square,
        our_pieces: Bitboard,
        their_pieces: Bitboard,
        blockers: Bitboard,
        king_bb: Bitboard,
        checkers: Bitboard,
        in_check: bool,
        in_double_check: bool,
        pinrays: &Vec<Bitboard>,
        pinned_pieces: Bitboard,
    ) -> (r: Vec<Move>)
        requires
            self.legal_moves_domain(),
            has_bit(self.occ(self.current), source.idx()),
            our_pieces.0 == self.occ(self.current),
            their_pieces.0 == self.occ(self.spec_opp()),
            blockers.0 == self.spec_blockers(),
            king_bb.0 == self.spec_bb(PieceType::King, self.current),
            checkers.0 == self.move_checkers(),
            in_check == self.spec_in_check(),
            in_double_check == self.spec_in_double_check(),
            pinrays@.map_values(|b: Bitboard| b.0) == self.spec_pinrays(self.current),
            pinned_pieces.0 == self.pinned(),
        ensures
            r@ == self.moves_for(source.idx()),
    {
        let ghost i = source.idx();
        let player = self.current;
        let opp = player.opp();
        assert(self.piece_list@[i] is Some);
        let piece = *self.get_at(source).unwrap();
        let mut moves: Vec<Move> = Vec::new();
        if in_double_check && piece.piece_type() != PieceType::King {
            return moves;
        }
        let mut pseudos = piece.visible_squares(our_pieces, their_pieces) & Bitboard(!our_pieces.0);
        if piece.piece_type() == PieceType::King {
            let danger = self.king_danger_squares(player);
            pseudos = pseudos & Bitboard(!danger.0);
        }
        if in_check && piece.piece_type() != PieceType::King {
            proof {
                lemma_checkers_bits(
                    self.piece_list@,
                    opp,
                    self.occ(opp),
                    self.occ(player),
                    self.piece_bbs@[PieceType::King.idx()].0 & self.occ(player),
                    64,
                );
                lemma_tz_has_bit(checkers.0);
            }
            let checker_square = Square::from_bitboard(checkers);
            let checker = *self.get_at(checker_square).unwrap();
            let rays = checker.visible_rays(blockers);
            proof {
                assert(rays@.map_values(|b: Bitboard| b.0) =~= self.checker_rays());
            }
            let check_ray = match find_containing(&rays, king_bb) {
                Some(ray) => ray,
                None => Bitboard(0),
            };
            pseudos = pseudos & (checkers | check_ray);
        }
        if pinned_pieces.contains(piece.position) {
            proof {
                lemma_bit_square(i);
                lemma_contains_bit(pinned_pieces.0, i);
                lemma_bits_and(self.occ(self.current), union_all(self.spec_pinrays(self.current)));
                lemma_union_all_first(self.spec_pinrays(self.current), i);
            }
            let pinray = find_containing(pinrays, piece.position).unwrap();
            pseudos = pseudos & pinray;
        }
        push_target_moves(source, piece.piece_type() == PieceType::Pawn, pseudos, &mut moves);
        proof {
            assert(moves@ =~= target_moves(i, piece.piece_type == PieceType::Pawn, self.pseudo_targets(piece), 64));
        }
        match self.en_passant {
            Some(en_passant) => {
                if piece.piece_type() != PieceType::Pawn {
                    proof {
                        assert(moves@ + Seq::<Move>::empty() =~= moves@);
                    }
                    return moves;
                }
                let ep_bb = Bitboard::from_square(en_passant);
                let can_capture = piece.visible_squares(our_pieces, ep_bb).contains(ep_bb);
                if !can_capture {
                    proof {
                        assert(moves@ + Seq::<Move>::empty() =~= moves@);
                    }
                    return moves;
                }
                proof {
                    assert(has_bit(self.occ(self.current), i) && self.piece_list@[i]->0.piece_type == PieceType::Pawn
                        && self.can_capture_ep(self.piece_list@[i]->0, en_passant));
                }
                let captured_bb = Bitboard::from_square(en_passant.forward(opp).unwrap());
                if self.is_xray_check(player, piece.position | captured_bb) {
                    proof {
                        assert(moves@ + Seq::<Move>::empty() =~= moves@);
                    }
                    return moves;
                }
                let mut mv = Move::new(source, en_passant);
                mv.set_en_passant();
                proof {
                    let s = source.idx() as u16;
                    let t = en_passant.idx() as u16;
                    assert(((s + 64 * t) as u16 | 0x4000u16) == (s + 64 * t + 0x4000) as u16) by (bit_vector)
                        requires
                            s < 64,
                            t < 64,
                    ;
                    assert(moves@.push(mv) =~= moves@ + seq![mv]);
                }
                moves.push(mv);
            },
            None => {
                proof {
                    assert(moves@ + Seq::<Move>::empty() =~= moves@);
                }
            },
        }
        moves
    }

    /// Generate the moves of the side to move.
    ///
    /// For each of its pieces, square by square: the squares the piece sees,
    /// less the squares of its own side and, for the king, the squares the
    /// other side attacks; while in check from one piece, restricted to
    /// capturing the checker or blocking its ray; and for a pinned piece, to
    /// its pin ray. Then the en-passant capture of a pawn that sees the
    /// en-passant square without uncovering a slider check. The castles whose
    /// rights remain, whose squares between king and rook are empty and whose
    /// king path is not attacked come last.
    pub fn legal_moves(&self) -> (r: Vec<Move>)
        requires
            self.legal_moves_domain(),
        ensures
            r@ == self.spec_legal_moves(),
    {
        let player = self.current;
        let opp = player.opp();
        let king_bb = self.get_bb(PieceType::King, player);
        let our_pieces = self.occupied_by(player);
        let their_pieces = self.occupied_by(opp);
        let blockers = our_pieces | their_pieces;
        let checkers = self.compute_checkers(opp);
        let in_check = !checkers.is_empty();
        let in_double_check = in_check && !checkers.is_single();
        let pinrays = self.compute_pinrays(player);
        proof {
            assert(pinrays@.map_values(|b: Bitboard| b.0) =~= self.spec_pinrays(self.current));
        }
        let pinned_pieces = our_pieces & Bitboard::union_of(&pinrays);
        let mut legal_moves: Vec<Move> = Vec::new();
        let mut i: usize = 0;
        while i < 64
            invariant
                i <= 64,
                self.legal_moves_domain(),
                our_pieces.0 == self.occ(self.current),
                their_pieces.0 == self.occ(self.spec_opp()),
                blockers.0 == self.spec_blockers(),
                king_bb.0 == self.spec_bb(PieceType::King, self.current),
                checkers.0 == self.move_checkers(),
                in_check == self.spec_in_check(),
                in_double_check == self.spec_in_double_check(),
                pinrays@.map_values(|b: Bitboard| b.0) == self.spec_pinrays(self.current),
                pinned_pieces.0 == self.pinned(),
                legal_moves@ == self.source_moves(i as int),
            decreases 64 - i,
        {
            let iu = i as u64;
            let x = our_pieces.0;
            if (x >> iu) & 1u64 == 1u64 {
                let source = Square::from_index(i);
                let mut moves = self.moves_from(
                    source,
                    our_pieces,
                    their_pieces,
                    blockers,
                    king_bb,
                    checkers,
                    in_check,
                    in_double_check,
                    &pinrays,
                    pinned_pieces,
                );
                legal_moves.append(&mut moves);
            }
            i = i + 1;
        }
        let available = self.castling_rights.get_available(self.current);
        let ghost base = legal_moves@;
        let mut k: usize = 0;
        proof {
            assert(base + castle_moves(*self, available@.take(0)) =~= base);
        }
        while k < available.len()
            invariant
                k <= available@.len(),
                available@ == available_prefix(self.castling_rights.0, self.current, 4),
                legal_moves@ == base + castle_moves(*self, available@.take(k as int)),
            decreases available@.len() - k,
        {
            let ctype = available[k];
            proof {
                assert(available@.take(k + 1).drop_last() =~= available@.take(k as int));
            }
            if ctype.is_allowed(self) && !ctype.path().has_overlap(self.all_occupied()) {
                let mv = ctype.king_move();
                proof {
                    assert(base + castle_moves(*self, available@.take(k as int)).push(mv)
                        =~= (base + castle_moves(*self, available@.take(k as int))).push(mv));
                }
                legal_moves.push(mv);
            }
            k = k + 1;
        }
        proof {
            assert(available@.take(available@.len() as int) =~= available@);
        }
        legal_moves
    }

    /// Whether a pawn of the side to move sees the en-passant square `ep`.
    fn pawn_sees_ep(&self, our_pieces: Bitboard, ep: Square) -> (r: bool)
        requires
            our_pieces.0 == self.occ(self.current),
            forall|i: int| 0 <= i < 64 && has_bit(self.occ(self.current), i) ==> (#[trigger] self.piece_list@[i]) is Some,
        ensures
            r == exists|i: int|
                0 <= i < 64 && has_bit(self.occ(self.current), i) && (#[trigger] self.piece_list@[i])->0.piece_type
                    == PieceType::Pawn && self.can_capture_ep(self.piece_list@[i]->0, ep),
    {
        let ep_bb = Bitboard::from_square(ep);
        let mut i: usize = 0;
        while i < 64
            invariant
                i <= 64,
                our_pieces.0 == self.occ(self.current),
                forall|j: int| 0 <= j < 64 && has_bit(self.occ(self.current), j) ==> (#[trigger] self.piece_list@[j]) is Some,
                ep_bb.0 == bit(ep.idx()),
                forall|j: int|
                    0 <= j < i && has_bit(self.occ(self.current), j) && (#[trigger] self.piece_list@[j])->0.piece_type
                        == PieceType::Pawn ==> !self.can_capture_ep(self.piece_list@[j]->0, ep),
            decreases 64 - i,
        {
            let iu = i as u64;
            let x = our_pieces.0;
            if (x >> iu) & 1u64 == 1u64 {
                match self.piece_list[i] {
                    Some(p) => {
                        if p.piece_type == PieceType::Pawn && p.visible_squares(our_pieces, ep_bb).contains(ep_bb) {
                            assert(has_bit(self.occ(self.current), i as int));
                            return true;
                        }
                    },
                    None => {},
                }
            }
            i = i + 1;
        }
        false
    }

    /// Whether the move generator is defined on this board: every square of
    /// the side to move holds a piece, every listed piece stands on its own
    /// square, and when a pawn sees the en-passant square, a square lies
    /// behind it for the captured pawn. Elsewhere the generator would find no
    /// piece or square.
    pub fn legal_moves_defined(&self) -> (r: bool)
        ensures
            r == self.legal_moves_domain(),
    {
        let player = self.current;
        let opp = player.opp();
        let our_pieces = self.occupied_by(player);
        let mut i: usize = 0;
        while i < 64
            invariant
                i <= 64,
                our_pieces.0 == self.occ(self.current),
                forall|j: int| 0 <= j < i && has_bit(self.occ(self.current), j) ==> (#[trigger] self.piece_list@[j]) is Some,
            decreases 64 - i,
        {
            let iu = i as u64;
            let x = our_pieces.0;
            if (x >> iu) & 1u64 == 1u64 && self.piece_list[i].is_none() {
                assert(has_bit(self.occ(self.current), i as int));
                return false;
            }
            i = i + 1;
        }
        let mut i: usize = 0;
        while i < 64
            invariant
                i <= 64,
                forall|j: int| 0 <= j < i ==> (#[trigger] self.piece_list@[j] matches Some(p) ==> p.position.0 == bit(j)),
            decreases 64 - i,
        {
            match self.piece_list[i] {
                Some(p) => {
                    let iu = i as u64;
                    if p.position.0 != 1u64 << iu {
                        assert(self.piece_list@[i as int] matches Some(q) && q.position.0 != bit(i as int));
                        return false;
                    }
                },
                None => {},
            }
            i = i + 1;
        }
        match self.en_passant {
            Some(ep) => {
                let behind = match opp {
                    Color::White => ep.rank() < 7,
                    Color::Black => ep.rank() > 0,
                };
                behind || !self.pawn_sees_ep(our_pieces, ep)
            },
            None => true,
        }
    }
}


/// The moves from `src` to the squares of `targets` all leave from `src` for
/// a square of `targets`, and none is flagged as a castle or en passant.
proof fn lemma_target_moves_from(src: int, pawn: bool, targets: u64, n: int)
    requires
        0 <= src < 64,
        n <= 64,
    ensures
        forall|k: int| 0 <= k < target_moves(src, pawn, targets, n).len() ==> {
            let m = #[trigger] target_moves(src, pawn, targets, n)[k];
            &&& m.spec_src() == src && !m.spec_is_castle() && !m.spec_is_en_passant()
            &&& has_bit(targets, m.spec_tgt())
        },
    decreases n,
{
    if n > 0 {
        lemma_target_moves_from(src, pawn, targets, n - 1);
        let s = src as u16;
        let t = (n - 1) as u16;
        assert(((s + 64 * t) as u16 & 0x3Fu16) == s && ((s + 64 * t) as u16 & 0x1000u16) == 0
            && ((s + 64 * t) as u16 & 0x4000u16) == 0 && (((s + 64 * t) as u16 & 0xFC0u16) >> 6u16) == t
            && ((((s + 64 * t) as u16) | 0x2000u16) & 0x3Fu16) == s && ((((s + 64 * t) as u16) | 0x2000u16)
            & 0x1000u16) == 0 && ((((s + 64 * t) as u16) | 0x2000u16) & 0x4000u16) == 0 && (((((s + 64
            * t) as u16) | 0x2000u16) & 0xFC0u16) >> 6u16) == t) by (bit_vector)
            requires
                s < 64,
                t < 64,
        ;
        assert(s as int == src && t as int == n - 1);
        let m = target_move(src, n - 1, pawn);
        assert(m.spec_src() == src && !m.spec_is_castle() && !m.spec_is_en_passant() && m.spec_tgt() == n - 1);
        let prev = target_moves(src, pawn, targets, n - 1);
        assert forall|k: int| 0 <= k < target_moves(src, pawn, targets, n).len() implies {
            let x = #[trigger] target_moves(src, pawn, targets, n)[k];
            &&& x.spec_src() == src && !x.spec_is_castle() && !x.spec_is_en_passant()
            &&& has_bit(targets, x.spec_tgt())
        } by {
            if k < prev.len() {
                assert(target_moves(src, pawn, targets, n)[k] == prev[k]);
            } else {
                assert(target_moves(src, pawn, targets, n)[k] == m);
            }
        }
    }
}

impl Board {
    /// What the generator checks of a move of the piece on the move's source
    /// square: in double check only the king moves, and a move other than an
    /// en-passant capture lands on one of the piece's kept targets.
    spec fn kept_move(self, m: Move) -> bool {
        let p = self.piece_list@[m.spec_src()]->0;
        &&& self.spec_in_double_check() ==> p.piece_type == PieceType::King
        &&& !m.spec_is_en_passant() ==> has_bit(self.pseudo_targets(p), m.spec_tgt())
    }

    /// The moves the generator makes for the piece on square index `i` all
    /// leave from `i`, none is flagged as a castle, and each is kept by
    /// `kept_move`.
    proof fn lemma_moves_for_from(self, i: int)
        requires
            0 <= i < 64,
        ensures
            forall|k: int| 0 <= k < self.moves_for(i).len() ==> {
                let m = #[trigger] self.moves_for(i)[k];
                m.spec_src() == i && !m.spec_is_castle() && self.kept_move(m)
            },
    {
        let p = self.piece_list@[i]->0;
        if !(self.spec_in_double_check() && p.piece_type != PieceType::King) {
            let tm = target_moves(i, p.piece_type == PieceType::Pawn, self.pseudo_targets(p), 64);
            lemma_target_moves_from(i, p.piece_type == PieceType::Pawn, self.pseudo_targets(p), 64);
            match self.en_passant {
                Some(ep) => {
                    let s = i as u16;
                    let e = ep.idx() as u16;
                    lemma_ep_move_bits(s, e);
                },
                None => {},
            }
            assert forall|k: int| 0 <= k < self.moves_for(i).len() implies {
                let m = #[trigger] self.moves_for(i)[k];
                m.spec_src() == i && !m.spec_is_castle() && self.kept_move(m)
            } by {
                if k >= tm.len() {
                    assert(self.moves_for(i)[k] == self.ep_moves(i, p)[k - tm.len()]);
                }
            }
        }
    }

    /// The moves the generator makes for the pieces on square indices below
    /// `n` all leave from a square of the side to move, and none is flagged
    /// as a castle.
    proof fn lemma_source_moves_from(self, n: int)
        requires
            0 <= n <= 64,
        ensures
            forall|k: int| 0 <= k < self.source_moves(n).len() ==> {
                let m = #[trigger] self.source_moves(n)[k];
                has_bit(self.occ(self.current), m.spec_src()) && !m.spec_is_castle() && self.kept_move(m)
            },
        decreases n,
    {
        if n > 0 {
            self.lemma_source_moves_from(n - 1);
            if has_bit(self.occ(self.current), n - 1) {
                self.lemma_moves_for_from(n - 1);
                let prev = self.source_moves(n - 1);
                assert forall|k: int| 0 <= k < self.source_moves(n).len() implies {
                    let m = #[trigger] self.source_moves(n)[k];
                    has_bit(self.occ(self.current), m.spec_src()) && !m.spec_is_castle() && self.kept_move(m)
                } by {
                    if k < prev.len() {
                        assert(self.source_moves(n)[k] == prev[k]);
                    } else {
                        assert(self.source_moves(n)[k] == self.moves_for(n - 1)[k - prev.len()]);
                    }
                }
            }
        }
    }
}

/// The encoding of an en-passant capture from square index `s` to square
/// index `e`: its source, its target and its flags.
proof fn lemma_ep_move_bits(s: u16, e: u16)
    by (bit_vector)
    requires
        s < 64,
        e < 64,
    ensures
        ((s + 64 * e + 0x4000) as u16 & 0x3Fu16) == s,
        ((s + 64 * e + 0x4000) as u16 & 0x1000u16) == 0,
        ((s + 64 * e + 0x4000) as u16 & 0x4000u16) != 0,
        (((s + 64 * e + 0x4000) as u16 & 0xFC0u16) >> 6u16) == e,
{
}

/// The encodings of the four castles' king moves leave from e1 or e8 and
/// are flagged as castles.
proof fn lemma_castle_king_move_bits()
    by (bit_vector)
    ensures
        4228u16 & 0x3Fu16 == 4 && 4228u16 & 0x1000u16 != 0,
        4484u16 & 0x3Fu16 == 4 && 4484u16 & 0x1000u16 != 0,
        7868u16 & 0x3Fu16 == 60 && 7868u16 & 0x1000u16 != 0,
        8124u16 & 0x3Fu16 == 60 && 8124u16 & 0x1000u16 != 0,
{
}

/// The square index the king of `side` starts from: e1 or e8.
pub open spec fn king_home(side: Color) -> int {
    match side {
        Color::White => 4,
        Color::Black => 60,
    }
}

/// The castle moves of castles of `side` are flagged as castles and leave
/// from the king's starting square.
proof fn lemma_castle_moves_from(b: Board, side: Color, avail: Seq<CastleType>)
    requires
        forall|k: int| 0 <= k < avail.len() ==> (#[trigger] avail[k]).spec_color() == side,
    ensures
        forall|k: int| 0 <= k < castle_moves(b, avail).len() ==> {
            let m = #[trigger] castle_moves(b, avail)[k];
            m.spec_is_castle() && m.spec_src() == king_home(side)
        },
    decreases avail.len(),
{
    if avail.len() > 0 {
        let prev = avail.drop_last();
        assert forall|k: int| 0 <= k < prev.len() implies (#[trigger] prev[k]).spec_color() == side by {
            assert(prev[k] == avail[k]);
        }
        lemma_castle_moves_from(b, side, prev);
        let c = avail.last();
        assert(c.spec_color() == side);
        let v = c.spec_king_move().0;
        lemma_castle_king_move_bits();
        assert(v == 4228u16 || v == 4484u16 || v == 7868u16 || v == 8124u16);
        let before = castle_moves(b, prev);
        assert forall|k: int| 0 <= k < castle_moves(b, avail).len() implies {
            let m = #[trigger] castle_moves(b, avail)[k];
            m.spec_is_castle() && m.spec_src() == king_home(side)
        } by {
            if k < before.len() {
                assert(castle_moves(b, avail)[k] == before[k]);
            } else {
                assert(castle_moves(b, avail)[k] == c.spec_king_move());
            }
        }
    }
}

/// Where the generated moves leave from: the moves of the pieces of the
/// side to move leave from that side's squares and are not castles; the
/// castles that follow them leave from the king's starting square of that
/// side, e1 or e8, and are flagged as castles.
pub proof fn lemma_legal_moves_sources(b: Board)
    ensures
        forall|k: int| 0 <= k < b.source_moves(64).len() ==> {
            let m = #[trigger] b.spec_legal_moves()[k];
            has_bit(b.occ(b.current), m.spec_src()) && !m.spec_is_castle()
        },
        forall|k: int| b.source_moves(64).len() <= k < b.spec_legal_moves().len() ==> {
            let m = #[trigger] b.spec_legal_moves()[k];
            m.spec_is_castle() && m.spec_src() == king_home(b.current)
        },
{
    let s = b.source_moves(64);
    let avail = available_prefix(b.castling_rights.0, b.current, 4);
    b.lemma_source_moves_from(64);
    lemma_available_sound(b.castling_rights.0, b.current, 4);
    lemma_castle_moves_from(b, b.current, avail);
    assert forall|k: int| 0 <= k < s.len() implies {
        let m = #[trigger] b.spec_legal_moves()[k];
        has_bit(b.occ(b.current), m.spec_src()) && !m.spec_is_castle()
    } by {
        assert(b.spec_legal_moves()[k] == s[k]);
    }
    assert forall|k: int| s.len() <= k < b.spec_legal_moves().len() implies {
        let m = #[trigger] b.spec_legal_moves()[k];
        m.spec_is_castle() && m.spec_src() == king_home(b.current)
    } by {
        assert(b.spec_legal_moves()[k] == castle_moves(b, avail)[k - s.len()]);
    }
}

/// What every move of a piece that the generator returns respects (the
/// castles that follow them aside): in double check only the king moves; and,
/// en-passant captures aside, a move never lands on a square of the side to
/// move, a king never steps onto a square the other side attacks with the king
/// lifted off the board, in check any other piece either takes the checker or
/// lands on the ray between checker and king, and a pinned piece stays on its
/// pin ray.
pub proof fn lemma_legal_moves_targets(b: Board)
    requires
        b.legal_moves_domain(),
    ensures
        forall|k: int| 0 <= k < b.source_moves(64).len() ==> {
            let m = #[trigger] b.spec_legal_moves()[k];
            let p = b.piece_list@[m.spec_src()]->0;
            let t = m.spec_tgt();
            &&& b.spec_in_double_check() ==> p.piece_type == PieceType::King
            &&& !m.spec_is_en_passant() ==> {
                &&& 0 <= t < 64
                &&& !has_bit(b.occ(b.current), t)
                &&& p.piece_type == PieceType::King ==> !has_bit(b.spec_king_danger(b.current), t)
                &&& b.spec_in_check() && p.piece_type != PieceType::King ==> has_bit(
                    b.move_checkers() | b.check_ray_bits(),
                    t,
                )
                &&& has_bit(b.pinned(), m.spec_src()) ==> has_bit(
                    first_containing(b.spec_pinrays(b.current), bit(m.spec_src()), 0)->0,
                    t,
                )
            }
        },
{
    let s = b.source_moves(64);
    b.lemma_source_moves_from(64);
    assert forall|k: int| 0 <= k < s.len() implies {
        let m = #[trigger] b.spec_legal_moves()[k];
        let p = b.piece_list@[m.spec_src()]->0;
        let t = m.spec_tgt();
        &&& b.spec_in_double_check() ==> p.piece_type == PieceType::King
        &&& !m.spec_is_en_passant() ==> {
            &&& 0 <= t < 64
            &&& !has_bit(b.occ(b.current), t)
            &&& p.piece_type == PieceType::King ==> !has_bit(b.spec_king_danger(b.current), t)
            &&& b.spec_in_check() && p.piece_type != PieceType::King ==> has_bit(
                b.move_checkers() | b.check_ray_bits(),
                t,
            )
            &&& has_bit(b.pinned(), m.spec_src()) ==> has_bit(
                first_containing(b.spec_pinrays(b.current), bit(m.spec_src()), 0)->0,
                t,
            )
        }
    } by {
        assert(b.spec_legal_moves()[k] == s[k]);
        let m = s[k];
        let i = m.spec_src();
        let p = b.piece_list@[i]->0;
        let t = m.spec_tgt();
        assert(has_bit(b.occ(b.current), i) && b.kept_move(m));
        assert(b.piece_list@[i] is Some);
        assert(p.position.0 == bit(i));
        if !m.spec_is_en_passant() {
            let cur = b.occ(b.current);
            let danger = b.spec_king_danger(b.current);
            let base = p.spec_visible(cur, b.occ(b.spec_opp())) & !cur;
            let a = if p.piece_type == PieceType::King {
                base & !danger
            } else {
                base
            };
            let c = if b.spec_in_check() && p.piece_type != PieceType::King {
                a & (b.move_checkers() | b.check_ray_bits())
            } else {
                a
            };
            let fc = first_containing(b.spec_pinrays(b.current), p.position.0, 0)->0;
            lemma_bits_and(p.spec_visible(cur, b.occ(b.spec_opp())), !cur);
            lemma_bits_and(base, !danger);
            lemma_bits_and(a, b.move_checkers() | b.check_ray_bits());
            lemma_bits_and(c, fc);
            lemma_bits_not(cur);
            lemma_bits_not(danger);
            lemma_contains_bit(b.pinned(), i);
            assert(has_bit(b.pseudo_targets(p), t));
            assert(has_bit(c, t));
            assert(has_bit(a, t));
            assert(has_bit(base, t));
        }
    }
}

/// A square of `checkers_union` is the square of a listed piece of `side`,
/// below `n`, that sees all of `target`, and every such square is in it.
proof fn lemma_checkers_union_exact(
    list: Seq<Option<Piece>>,
    side: Color,
    ours: u64,
    theirs: u64,
    target: u64,
    n: int,
)
    requires
        0 <= n <= 64,
        list.len() == 64,
        forall|i: int| 0 <= i < 64 ==> (#[trigger] list[i] matches Some(p) ==> p.position.0 == bit(i)),
    ensures
        forall|i: int| 0 <= i < 64 ==> (#[trigger] has_bit(checkers_union(list, side, ours, theirs, target, n), i) <==> (
        i < n && list[i] is Some && list[i]->0.color == side && list[i]->0.spec_visible(ours, theirs) & target
            == target)),
    decreases n,
{
    if n == 0 {
        lemma_zero_bits();
    } else {
        lemma_checkers_union_exact(list, side, ours, theirs, target, n - 1);
        let prev = checkers_union(list, side, ours, theirs, target, n - 1);
        match list[n - 1] {
            Some(p) => {
                if p.color == side && p.spec_visible(ours, theirs) & target == target {
                    lemma_bits_or(prev, p.position.0);
                    assert forall|i: int| 0 <= i < 64 implies #[trigger] has_bit(p.position.0, i) == (i == n - 1) by {
                        lemma_has_bit_bit(n - 1, i);
                    }
                }
            },
            None => {},
        }
    }
}

/// The checkers of `side` are exactly the squares of `side`'s pieces that
/// see the other side's king, whatever their type: a square is among them
/// when, and only when, a piece of `side` stands there and the squares it
/// sees hold the other side's king.
pub proof fn lemma_checkers_exact(b: Board, side: Color)
    requires
        forall|i: int| 0 <= i < 64 ==> (#[trigger] b.piece_list@[i] matches Some(p) ==> p.position.0 == bit(i)),
    ensures
        forall|i: int| 0 <= i < 64 ==> (#[trigger] has_bit(b.spec_checkers(side), i) <==> (
        b.piece_list@[i] is Some && b.piece_list@[i]->0.color == side && b.piece_list@[i]->0.spec_visible(
            b.occ(side),
            b.occ(side.spec_opp()),
        ) & b.spec_bb(PieceType::King, side.spec_opp()) == b.spec_bb(PieceType::King, side.spec_opp()))),
{
    let opp_king = b.piece_bbs@[PieceType::King.idx()].0 & b.occ(side.spec_opp());
    lemma_checkers_union_exact(b.piece_list@, side, b.occ(side), b.occ(side.spec_opp()), opp_king, 64);
}

/// A square of one of the rays that make up `rays_union` is a square of the
/// union.
proof fn lemma_rays_union_has(start: int, dirs: Seq<Step>, n: nat, blockers: u64, j: int, x: int)
    requires
        0 <= j < dirs.len(),
        has_bit(ray(start, dirs[j].delta_rank as int, dirs[j].delta_file as int, n, blockers), x),
    ensures
        has_bit(rays_union(start, dirs, n, blockers), x),
    decreases dirs.len(),
{
    let prev = rays_union(start, dirs.drop_last(), n, blockers);
    let last = ray(start, dirs.last().delta_rank as int, dirs.last().delta_file as int, n, blockers);
    lemma_bits_or(prev, last);
    if j < dirs.len() - 1 {
        assert(dirs.drop_last()[j] == dirs[j]);
        lemma_rays_union_has(start, dirs.drop_last(), n, blockers, j, x);
    }
}

/// A knight checks a king that stands one knight's jump away: when a knight
/// of `side` stands on square index `i`, the other side's only king stands
/// on square index `k`, and `k` is reached from `i` by moving one rank and
/// two files, or two ranks and one file, then `i` is among the checkers of
/// `side`.
pub proof fn lemma_knight_checks(b: Board, side: Color, i: int, k: int, dr: int, df: int)
    requires
        forall|j: int| 0 <= j < 64 ==> (#[trigger] b.piece_list@[j] matches Some(p) ==> p.position.0 == bit(j)),
        0 <= i < 64,
        b.piece_list@[i] matches Some(p) && p.color == side && p.piece_type == PieceType::Knight,
        b.spec_bb(PieceType::King, side.spec_opp()) == bit(k),
        (dr == 1 || dr == -1) && (df == 2 || df == -2) || (dr == 2 || dr == -2) && (df == 1 || df == -1),
        offset_index(i, dr, df) == Some(k),
    ensures
        has_bit(b.spec_checkers(side), i),
{
    let p = b.piece_list@[i]->0;
    let steps = knight_steps();
    let j: int = if dr == 1 && df == 2 {
        0
    } else if dr == 1 && df == -2 {
        1
    } else if dr == -1 && df == 2 {
        2
    } else if dr == -1 && df == -2 {
        3
    } else if dr == 2 && df == 1 {
        4
    } else if dr == 2 && df == -1 {
        5
    } else if dr == -2 && df == 1 {
        6
    } else {
        7
    };
    assert(steps[j].delta_rank as int == dr && steps[j].delta_file as int == df);
    lemma_bit_square(i);
    assert(p.position.lsb() == i);
    let blockers = b.occ(side) | b.occ(side.spec_opp());
    assert(0 <= k < 64);
    let r = ray(i, dr, df, 1, blockers);
    let rest = if has_bit(blockers, k) {
        0u64
    } else {
        ray(k, dr, df, 0, blockers)
    };
    assert(r == bit(k) | rest);
    lemma_bits_or(bit(k), rest);
    lemma_has_bit_bit(k, k);
    lemma_rays_union_has(i, steps, 1, blockers, j, k);
    let along = rays_union(i, steps, 1, blockers);
    assert(p.spec_visible(b.occ(side), b.occ(side.spec_opp())) == along);
    lemma_contains_bit(along, k);
    lemma_checkers_exact(b, side);
}

/// A castle's king move found among `castle_moves` comes from that castle
/// in `avail`, and the castle passed the generator's tests.
proof fn lemma_castle_moves_sound(b: Board, avail: Seq<CastleType>, c: CastleType)
    requires
        castle_moves(b, avail).contains(c.spec_king_move()),
    ensures
        avail.contains(c),
        c.vuln_squares() & b.spec_attacked_with(
            c.spec_color().spec_opp(),
            b.occ(c.spec_color().spec_opp()),
            b.occ(c.spec_color()),
        ) == 0,
        c.path_squares() & b.occ_all() == 0,
    decreases avail.len(),
{
    if avail.len() > 0 {
        let prev = avail.drop_last();
        let last = avail.last();
        let before = castle_moves(b, prev);
        let k = choose|k: int| 0 <= k < castle_moves(b, avail).len() && castle_moves(b, avail)[k] == c.spec_king_move();
        if k < before.len() {
            assert(castle_moves(b, avail)[k] == before[k]);
            assert(before.contains(c.spec_king_move()));
            lemma_castle_moves_sound(b, prev, c);
            let i = choose|i: int| 0 <= i < prev.len() && prev[i] == c;
            assert(avail[i] == c);
        } else {
            assert(castle_moves(b, avail)[k] == last.spec_king_move());
            assert(last == c);
            assert(avail[avail.len() - 1] == c);
        }
    }
}

/// A castle is generated only when its side is to move and still has the
/// right to it, none of the squares the king stands on, passes over or lands
/// on is attacked by the other side, and the squares between king and rook
/// are empty: e1, d1, c1 (and b1 empty) for White's long castle, e1, f1, g1
/// for its short castle, and likewise on the eighth rank for Black.
pub proof fn lemma_castles_sound(b: Board, c: CastleType)
    requires
        b.spec_legal_moves().contains(c.spec_king_move()),
    ensures
        c.spec_color() == b.current,
        b.castling_rights.spec_is_available(c),
        (match c {
            CastleType::WQ => 0x000000000000001Cu64,
            CastleType::WK => 0x0000000000000070u64,
            CastleType::BQ => 0x1C00000000000000u64,
            CastleType::BK => 0x7000000000000000u64,
        }) & b.spec_attacked_with(b.current.spec_opp(), b.occ(b.current.spec_opp()), b.occ(b.current)) == 0,
        (match c {
            CastleType::WQ => 0x000000000000000Eu64,
            CastleType::WK => 0x0000000000000060u64,
            CastleType::BQ => 0x0E00000000000000u64,
            CastleType::BK => 0x6000000000000000u64,
        }) & b.occ_all() == 0,
{
    let s = b.source_moves(64);
    let avail = available_prefix(b.castling_rights.0, b.current, 4);
    lemma_legal_moves_sources(b);
    lemma_castle_king_move_bits();
    let m = c.spec_king_move();
    assert(m.spec_is_castle());
    let k = choose|k: int| 0 <= k < b.spec_legal_moves().len() && b.spec_legal_moves()[k] == m;
    assert(k >= s.len());
    assert(castle_moves(b, avail)[k - s.len()] == m);
    assert(castle_moves(b, avail).contains(m));
    lemma_castle_moves_sound(b, avail, c);
    lemma_available_sound(b.castling_rights.0, b.current, 4);
    let i = choose|i: int| 0 <= i < avail.len() && avail[i] == c;
    assert(avail[i] == c);
}

impl Board {
    /// Every move the generator makes for a piece of the side to move on a
    /// square below `n` is among the moves of the pieces below `n`.
    proof fn lemma_source_moves_has(self, n: int, i: int, k: int)
        requires
            0 <= i < n <= 64,
            has_bit(self.occ(self.current), i),
            0 <= k < self.moves_for(i).len(),
        ensures
            self.source_moves(n).contains(self.moves_for(i)[k]),
        decreases n,
    {
        let prev = self.source_moves(n - 1);
        if i == n - 1 {
            assert(self.source_moves(n)[prev.len() + k] == self.moves_for(i)[k]);
        } else {
            self.lemma_source_moves_has(n - 1, i, k);
            let j = choose|j: int| 0 <= j < prev.len() && prev[j] == self.moves_for(i)[k];
            if has_bit(self.occ(self.current), n - 1) {
                assert(self.source_moves(n)[j] == prev[j]);
            }
        }
    }
}

/// En-passant captures are generated: when the board has an en-passant
/// square `ep`, a pawn of the side to move on square index `s` attacks it
/// (it lies one rank forward and one file to the side), the side to move is
/// not in double check, and taking the pawn off `s` together with the pawn
/// to be captured uncovers no slider on its king, then the generated moves
/// hold the move from `s` to `ep` flagged as en passant.
pub proof fn lemma_en_passant_complete(b: Board, s: int, df: int, ep: Square)
    requires
        b.legal_moves_domain(),
        0 <= s < 64,
        has_bit(b.occ(b.current), s),
        b.piece_list@[s] is Some && b.piece_list@[s]->0.piece_type == PieceType::Pawn
            && b.piece_list@[s]->0.color == b.current,
        df == 1 || df == -1,
        b.en_passant == Some(ep),
        offset_index(s, Step::spec_forward(b.current).delta_rank as int, df) == Some(ep.idx()),
        !b.spec_in_double_check(),
        !b.spec_is_xray_check(b.current, bit(s) | bit(ep.forward_index(b.current.spec_opp())->0)),
    ensures
        b.spec_legal_moves().contains(Move(((s + 64 * ep.idx()) + 0x4000) as u16)),
        Move(((s + 64 * ep.idx()) + 0x4000) as u16).spec_src() == s,
        Move(((s + 64 * ep.idx()) + 0x4000) as u16).spec_tgt() == ep.idx(),
        Move(((s + 64 * ep.idx()) + 0x4000) as u16).spec_is_en_passant(),
        !Move(((s + 64 * ep.idx()) + 0x4000) as u16).spec_is_castle(),
{
    let p = b.piece_list@[s]->0;
    let e = ep.idx();
    let mv = Move(((s + 64 * e) + 0x4000) as u16);
    assert(0 <= e < 64);
    lemma_ep_move_bits(s as u16, e as u16);
    assert(p.position.0 == bit(s));
    lemma_bit_square(s);
    assert(p.position.lsb() == s);
    let dr = Step::spec_forward(p.color).delta_rank as int;
    // The pawn sees the en-passant square as a capture.
    let theirs = bit(e);
    let ours = b.occ(b.current);
    let caps = p.pawn_capture_bits();
    let left = offset_bit(s, dr, -1);
    let right = offset_bit(s, dr, 1);
    lemma_bits_or(left, right);
    lemma_has_bit_bit(e, e);
    assert(has_bit(caps, e));
    lemma_bits_and(caps, theirs);
    let along = rays_union(s, p.spec_directions(), p.spec_range(), ours | theirs);
    lemma_bits_or(along & !theirs, caps & theirs);
    lemma_contains_bit(p.spec_visible(ours, theirs), e);
    assert(b.can_capture_ep(p, ep));
    // Its moves end with the en-passant capture.
    let tm = target_moves(s, true, b.pseudo_targets(p), 64);
    assert(b.ep_moves(s, p) == seq![mv]);
    assert(b.moves_for(s) == tm + seq![mv]);
    assert(b.moves_for(s)[tm.len() as int] == mv);
    b.lemma_source_moves_has(64, s, tm.len() as int);
    let j = choose|j: int| 0 <= j < b.source_moves(64).len() && b.source_moves(64)[j] == mv;
    assert(b.spec_legal_moves()[j] == mv);
}

/// No generated king move steps onto a square the other side attacks once
/// the king has left its square: with the king of the side to move on square
/// index `k`, each generated move from `k` (en-passant captures aside) ends
/// outside what the other side's pieces attack on the board without that
/// king.
pub proof fn lemma_king_moves_avoid_attacks(b: Board, k: int)
    requires
        b.legal_moves_domain(),
        0 <= k < 64,
        b.spec_bb(PieceType::King, b.current) == bit(k),
        b.piece_list@[k] is Some && b.piece_list@[k]->0.color == b.current
            && b.piece_list@[k]->0.piece_type == PieceType::King,
    ensures
        forall|i: int| 0 <= i < b.spec_legal_moves().len() ==> {
            let m = #[trigger] b.spec_legal_moves()[i];
            m.spec_src() == k && !m.spec_is_castle() && !m.spec_is_en_passant() ==> !has_bit(
                attack_union(
                    b.piece_list@.update(k, None),
                    b.current.spec_opp(),
                    b.occ(b.current.spec_opp()),
                    b.occ(b.current) & !bit(k),
                    64,
                ),
                m.spec_tgt(),
            )
        },
{
    lemma_legal_moves_sources(b);
    lemma_legal_moves_targets(b);
    lemma_king_danger_lifts_king(b, b.current, k);
    assert forall|i: int| 0 <= i < b.spec_legal_moves().len() implies {
        let m = #[trigger] b.spec_legal_moves()[i];
        m.spec_src() == k && !m.spec_is_castle() && !m.spec_is_en_passant() ==> !has_bit(
            attack_union(
                b.piece_list@.update(k, None),
                b.current.spec_opp(),
                b.occ(b.current.spec_opp()),
                b.occ(b.current) & !bit(k),
                64,
            ),
            m.spec_tgt(),
        )
    } by {
        let m = b.spec_legal_moves()[i];
        if m.spec_src() == k && !m.spec_is_castle() && !m.spec_is_en_passant() {
            if i >= b.source_moves(64).len() {
                assert(m.spec_is_castle());
            }
        }
    }
}

/// A castle of `side` that `rights` allow is among the available castles.
proof fn lemma_available_complete(rights: u8, side: Color, n: int, c: CastleType)
    requires
        0 <= c.idx() < n <= 4,
        c.spec_color() == side,
        rights & castle_bit(c) != 0,
    ensures
        available_prefix(rights, side, n).contains(c),
    decreases n,
{
    let prev = available_prefix(rights, side, n - 1);
    let all = seq![CastleType::WQ, CastleType::WK, CastleType::BQ, CastleType::BK];
    if c.idx() == n - 1 {
        assert(all[n - 1] == c);
        assert(available_prefix(rights, side, n)[prev.len() as int] == c);
    } else {
        lemma_available_complete(rights, side, n - 1, c);
        let i = choose|i: int| 0 <= i < prev.len() && prev[i] == c;
        assert(available_prefix(rights, side, n)[i] == c);
    }
}

/// A castle of `avail` that passes the generator's tests has its king move
/// among `castle_moves`.
proof fn lemma_castle_moves_complete(b: Board, avail: Seq<CastleType>, c: CastleType)
    requires
        avail.contains(c),
        c.vuln_squares() & b.spec_attacked_with(
            c.spec_color().spec_opp(),
            b.occ(c.spec_color().spec_opp()),
            b.occ(c.spec_color()),
        ) == 0,
        c.path_squares() & b.occ_all() == 0,
    ensures
        castle_moves(b, avail).contains(c.spec_king_move()),
    decreases avail.len(),
{
    let prev = avail.drop_last();
    let before = castle_moves(b, prev);
    if avail.last() == c {
        assert(castle_moves(b, avail)[before.len() as int] == c.spec_king_move());
    } else {
        let i = choose|i: int| 0 <= i < avail.len() && avail[i] == c;
        assert(prev[i] == c);
        lemma_castle_moves_complete(b, prev, c);
        let j = choose|j: int| 0 <= j < before.len() && before[j] == c.spec_king_move();
        assert(castle_moves(b, avail)[j] == c.spec_king_move());
    }
}

/// Every castle that may be played is generated: when the side to move
/// still has the right to a castle, none of the squares its king stands on,
/// passes over or lands on is attacked by the other side, and the squares
/// between king and rook are empty, the generated moves hold its king move.
pub proof fn lemma_castles_complete(b: Board, c: CastleType)
    requires
        c.spec_color() == b.current,
        b.castling_rights.spec_is_available(c),
        (match c {
            CastleType::WQ => 0x000000000000001Cu64,
            CastleType::WK => 0x0000000000000070u64,
            CastleType::BQ => 0x1C00000000000000u64,
            CastleType::BK => 0x7000000000000000u64,
        }) & b.spec_attacked_with(b.current.spec_opp(), b.occ(b.current.spec_opp()), b.occ(b.current)) == 0,
        (match c {
            CastleType::WQ => 0x000000000000000Eu64,
            CastleType::WK => 0x0000000000000060u64,
            CastleType::BQ => 0x0E00000000000000u64,
            CastleType::BK => 0x6000000000000000u64,
        }) & b.occ_all() == 0,
    ensures
        b.spec_legal_moves().contains(c.spec_king_move()),
{
    let s = b.source_moves(64);
    let avail = available_prefix(b.castling_rights.0, b.current, 4);
    lemma_available_complete(b.castling_rights.0, b.current, 4, c);
    lemma_castle_moves_complete(b, avail, c);
    let j = choose|j: int| 0 <= j < castle_moves(b, avail).len() && castle_moves(b, avail)[j] == c.spec_king_move();
    assert(b.spec_legal_moves()[s.len() + j] == c.spec_king_move());
}

} // verus!
