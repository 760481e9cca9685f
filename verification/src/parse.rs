//! Parsers for algebraic notation and for the piece placement of FEN strings.
//!
//! Each parser reads a prefix of its input and returns the rest of the input
//! together with what it read, or an error that holds the input it failed on
//! and the kind of failure.
use vstd::prelude::*;
use vstd::string::*;
use crate::bitboard::{Bitboard, bit};
use crate::board::{Color, PieceType};
use crate::fen::FENAtom;
use crate::text::{all_digits, digits_value, lemma_digits_value_nonneg};

verus! {

/// Why a parser failed.
#[derive(Debug, PartialEq, Eq, Structural, Clone, Copy)]
pub enum ErrorKind {
    /// The input ended where a character was expected.
    Eof,
    /// The input did not start with a number that fits in a `u64`.
    Digit,
    /// A character or number was read, but it is not one the parser accepts.
    Fail,
    /// The input did not start with the expected separator character.
    Char,
}

/// A parse failure: the input the failing parser was given, and why it
/// failed.
#[derive(Debug, PartialEq, Eq, Clone, Copy)]
pub struct ParseError<'a> {
    pub input: &'a str,
    pub code: ErrorKind,
}

/// The rest of the input and the value read, or the failure.
pub type ParseResult<'a, O> = Result<(&'a str, O), ParseError<'a>>;

/// The outcome of a parser on a sequence of characters: the rest and the value
/// read, or the input it failed on and why.
pub type SpecResult<O> = Result<(Seq<char>, O), (Seq<char>, ErrorKind)>;

/// Whether a parse result agrees with its model.
pub open spec fn agrees<'a, O>(r: ParseResult<'a, O>, m: SpecResult<O>) -> bool {
    match r {
        Ok((rest, v)) => m matches Ok((mrest, mv)) && rest@ == mrest && v == mv,
        Err(e) => m matches Err((minput, kind)) && e.input@ == minput && e.code == kind,
    }
}

/// Whether a parse result that holds a vector agrees with its model.
pub open spec fn agrees_vec<'a, O>(r: ParseResult<'a, Vec<O>>, m: SpecResult<Seq<O>>) -> bool {
    match r {
        Ok((rest, v)) => m matches Ok((mrest, mv)) && rest@ == mrest && v@ == mv,
        Err(e) => m matches Err((minput, kind)) && e.input@ == minput && e.code == kind,
    }
}

/// Whether a parse result that holds a vector of vectors agrees with its
/// model.
pub open spec fn agrees_nested<'a, O>(r: ParseResult<'a, Vec<Vec<O>>>, m: SpecResult<Seq<Seq<O>>>) -> bool {
    match r {
        Ok((rest, v)) => m matches Ok((mrest, mv)) && rest@ == mrest && v@.map_values(|x: Vec<O>| x@) == mv,
        Err(e) => m matches Err((minput, kind)) && e.input@ == minput && e.code == kind,
    }
}

/// The side and type of the piece a FEN letter names: upper case for White,
/// lower case for Black.
pub open spec fn piece_of_char(c: char) -> Option<(Color, PieceType)> {
    if c == 'p' {
        Some((Color::Black, PieceType::Pawn))
    } else if c == 'r' {
        Some((Color::Black, PieceType::Rook))
    } else if c == 'n' {
        Some((Color::Black, PieceType::Knight))
    } else if c == 'b' {
        Some((Color::Black, PieceType::Bishop))
    } else if c == 'q' {
        Some((Color::Black, PieceType::Queen))
    } else if c == 'k' {
        Some((Color::Black, PieceType::King))
    } else if c == 'P' {
        Some((Color::White, PieceType::Pawn))
    } else if c == 'R' {
        Some((Color::White, PieceType::Rook))
    } else if c == 'N' {
        Some((Color::White, PieceType::Knight))
    } else if c == 'B' {
        Some((Color::White, PieceType::Bishop))
    } else if c == 'Q' {
        Some((Color::White, PieceType::Queen))
    } else if c == 'K' {
        Some((Color::White, PieceType::King))
    } else {
        None
    }
}

/// The file (0 to 7) a letter `a` to `h` names.
pub open spec fn file_of_char(c: char) -> Option<u64> {
    if 'a' <= c && c <= 'h' {
        Some((c as int - 97) as u64)
    } else {
        None
    }
}

pub open spec fn is_digit(c: char) -> bool {
    '0' <= c && c <= '9'
}

/// The number of decimal digits at the start of `s`.
pub open spec fn leading_digits(s: Seq<char>) -> nat
    decreases s.len(),
{
    if s.len() > 0 && is_digit(s[0]) {
        1 + leading_digits(s.drop_first())
    } else {
        0
    }
}

/// Reading a `u64` in decimal: at least one digit, and a value that fits.
pub open spec fn spec_u64(s: Seq<char>) -> SpecResult<u64> {
    let k = leading_digits(s);
    if k == 0 {
        Err((s, ErrorKind::Digit))
    } else {
        let v = digits_value(s.take(k as int));
        if v > u64::MAX {
            Err((s, ErrorKind::Digit))
        } else {
            Ok((s.skip(k as int), v as u64))
        }
    }
}

/// Reading one character.
pub open spec fn spec_anychar(s: Seq<char>) -> SpecResult<char> {
    if s.len() == 0 {
        Err((s, ErrorKind::Eof))
    } else {
        Ok((s.drop_first(), s[0]))
    }
}

pub open spec fn spec_algebraic_piece(s: Seq<char>) -> SpecResult<(Color, PieceType)> {
    match spec_anychar(s) {
        Err(e) => Err(e),
        Ok((rest, c)) => match piece_of_char(c) {
            Some(p) => Ok((rest, p)),
            None => Err((s, ErrorKind::Fail)),
        },
    }
}

/// Reading a rank number `1` to `8`, as the rank index 0 to 7.
pub open spec fn spec_algebraic_rank(s: Seq<char>) -> SpecResult<u64> {
    match spec_u64(s) {
        Err(e) => Err(e),
        Ok((rest, n)) => if n <= 8 {
            Ok((rest, (n - 1) as u64))
        } else {
            Err((s, ErrorKind::Fail))
        },
    }
}

/// The rank number `0` is outside the domain of the rank parser, which
/// subtracts one from the number it reads.
pub open spec fn rank_in_domain(s: Seq<char>) -> bool {
    !(spec_u64(s) matches Ok((_, n)) && n == 0)
}

pub open spec fn spec_algebraic_file(s: Seq<char>) -> SpecResult<u64> {
    match spec_anychar(s) {
        Err(e) => Err(e),
        Ok((rest, c)) => match file_of_char(c) {
            Some(f) => Ok((rest, f)),
            None => Err((s, ErrorKind::Fail)),
        },
    }
}

/// Reading a square as a file letter followed by a rank number; the value
/// is the pair (file, rank).
pub open spec fn spec_algebraic_square(s: Seq<char>) -> SpecResult<(u64, u64)> {
    match spec_algebraic_file(s) {
        Err(e) => Err(e),
        Ok((r1, f)) => match spec_algebraic_rank(r1) {
            Err(e) => Err(e),
            Ok((r2, rk)) => Ok((r2, (f, rk))),
        },
    }
}

pub open spec fn square_in_domain(s: Seq<char>) -> bool {
    match spec_algebraic_file(s) {
        Ok((r1, _)) => rank_in_domain(r1),
        Err(_) => true,
    }
}

/// Reading a square as the bitboard of that square.
pub open spec fn spec_algebraic_square_position(s: Seq<char>) -> SpecResult<Bitboard> {
    match spec_algebraic_square(s) {
        Err(e) => Err(e),
        Ok((rest, (f, rk))) => Ok((rest, Bitboard(bit(8 * rk + f)))),
    }
}

/// Reading the length of a run of empty squares, 1 to 8.
pub open spec fn spec_fen_gap(s: Seq<char>) -> SpecResult<u64> {
    match spec_u64(s) {
        Err(e) => Err(e),
        Ok((rest, n)) => if 0 < n && n <= 8 {
            Ok((rest, n))
        } else {
            Err((s, ErrorKind::Fail))
        },
    }
}

/// Reading a piece letter, or else a run of empty squares.
pub open spec fn spec_fen_atom(s: Seq<char>) -> SpecResult<FENAtom> {
    match spec_algebraic_piece(s) {
        Ok((rest, (c, t))) => Ok((rest, FENAtom::Piece(c, t))),
        Err(_) => match spec_fen_gap(s) {
            Ok((rest, n)) => Ok((rest, FENAtom::Gap(n as usize))),
            Err(e) => Err(e),
        },
    }
}

/// The atoms that follow at the start of `s`, read until one cannot be
/// read, and the input left.
pub open spec fn many_atoms(s: Seq<char>) -> (Seq<FENAtom>, Seq<char>)
    decreases s.len(),
{
    match spec_fen_atom(s) {
        Err(_) => (Seq::<FENAtom>::empty(), s),
        Ok((rest, a)) => if rest.len() < s.len() {
            let (more, left) = many_atoms(rest);
            (seq![a] + more, left)
        } else {
            (seq![a], rest)
        },
    }
}

/// Reading one FEN rank: one or more atoms.
pub open spec fn spec_fen_rank(s: Seq<char>) -> SpecResult<Seq<FENAtom>> {
    match spec_fen_atom(s) {
        Err(e) => Err(e),
        Ok((rest, a)) => {
            let (more, left) = many_atoms(rest);
            Ok((left, seq![a] + more))
        },
    }
}

/// The ranks that follow at the start of `s`, each after a `/`, read until
/// no `/` and rank follow, and the input left.
pub open spec fn more_ranks(s: Seq<char>) -> (Seq<Seq<FENAtom>>, Seq<char>)
    decreases s.len(),
{
    if s.len() > 0 && s[0] == '/' {
        match spec_fen_rank(s.drop_first()) {
            Err(_) => (Seq::<Seq<FENAtom>>::empty(), s),
            Ok((rest, rank)) => if rest.len() < s.len() {
                let (more, left) = more_ranks(rest);
                (seq![rank] + more, left)
            } else {
                (seq![rank], rest)
            },
        }
    } else {
        (Seq::<Seq<FENAtom>>::empty(), s)
    }
}

/// Reading a FEN piece placement: one or more ranks separated by `/`.
pub open spec fn spec_fen_board(s: Seq<char>) -> SpecResult<Seq<Seq<FENAtom>>> {
    match spec_fen_rank(s) {
        Err(e) => Err(e),
        Ok((rest, first)) => {
            let (more, left) = more_ranks(rest);
            Ok((left, seq![first] + more))
        },
    }
}

pub open spec fn spec_fen_color(s: Seq<char>) -> SpecResult<Color> {
    match spec_anychar(s) {
        Err(e) => Err(e),
        Ok((rest, c)) => if c == 'w' {
            Ok((rest, Color::White))
        } else if c == 'b' {
            Ok((rest, Color::Black))
        } else {
            Err((s, ErrorKind::Fail))
        },
    }
}

pub open spec fn spec_instruction(s: Seq<char>) -> SpecResult<(Bitboard, Bitboard)> {
    match spec_algebraic_square_position(s) {
        Err(e) => Err(e),
        Ok((r1, from)) => if r1.len() > 0 && r1[0] == ' ' {
            match spec_algebraic_square_position(r1.drop_first()) {
                Err(e) => Err(e),
                Ok((r2, to)) => Ok((r2, (from, to))),
            }
        } else {
            Err((r1, ErrorKind::Char))
        },
    }
}

pub open spec fn instruction_in_domain(s: Seq<char>) -> bool {
    square_in_domain(s) && match spec_algebraic_square(s) {
        Ok((r1, _)) => r1.len() > 0 && r1[0] == ' ' ==> square_in_domain(r1.drop_first()),
        Err(_) => true,
    }
}


/// A string whose first `k` characters are digits and whose next one is
/// not starts with exactly `k` digits.
pub proof fn lemma_leading_digits(s: Seq<char>, k: int)
    requires
        0 <= k <= s.len(),
        forall|i: int| 0 <= i < k ==> is_digit(#[trigger] s[i]),
        k == s.len() || !is_digit(s[k]),
    ensures
        leading_digits(s) == k,
    decreases k,
{
    if k > 0 {
        let t = s.drop_first();
        assert forall|i: int| 0 <= i < k - 1 implies is_digit(#[trigger] t[i]) by {
            assert(t[i] == s[i + 1]);
        }
        if k - 1 < t.len() {
            assert(t[k - 1] == s[k]);
        }
        lemma_leading_digits(t, k - 1);
    }
}

/// The leading digits of a string lie within it, and are digits.
pub proof fn lemma_leading_digits_bound(s: Seq<char>)
    ensures
        leading_digits(s) <= s.len(),
        forall|i: int| 0 <= i < leading_digits(s) ==> is_digit(#[trigger] s[i]),
    decreases s.len(),
{
    if s.len() > 0 && is_digit(s[0]) {
        let t = s.drop_first();
        lemma_leading_digits_bound(t);
        assert forall|i: int| 0 <= i < leading_digits(s) implies is_digit(#[trigger] s[i]) by {
            if i > 0 {
                assert(s[i] == t[i - 1]);
            }
        }
    }
}

/// Reading more digits never makes a number smaller.
pub proof fn lemma_digits_value_mono(s: Seq<char>, i: int, j: int)
    requires
        0 <= i <= j <= s.len(),
        all_digits(s.take(j)),
    ensures
        digits_value(s.take(i)) <= digits_value(s.take(j)),
    decreases j - i,
{
    if i < j {
        assert(s.take(j).drop_last() =~= s.take(j - 1));
        assert(all_digits(s.take(j - 1)));
        lemma_digits_value_mono(s, i, j - 1);
        lemma_digits_value_nonneg(s.take(j - 1));
        assert('0' <= s.take(j)[j - 1]);
    }
}

/// Reading a FEN atom consumes at least one character.
pub proof fn lemma_atom_consumes(s: Seq<char>)
    ensures
        spec_fen_atom(s) matches Ok((rest, _)) ==> rest.len() < s.len(),
{
    lemma_leading_digits_bound(s);
}

/// Reading a FEN rank consumes at least one character.
pub proof fn lemma_rank_consumes(s: Seq<char>)
    ensures
        spec_fen_rank(s) matches Ok((rest, _)) ==> rest.len() < s.len(),
{
    lemma_atom_consumes(s);
    if let Ok((r, _)) = spec_fen_atom(s) {
        lemma_many_atoms_suffix(r);
    }
}

/// Reading as many FEN atoms as possible leaves a suffix no longer than
/// the input.
pub proof fn lemma_many_atoms_suffix(s: Seq<char>)
    ensures
        many_atoms(s).1.len() <= s.len(),
    decreases s.len(),
{
    lemma_atom_consumes(s);
    if let Ok((rest, _)) = spec_fen_atom(s) {
        if rest.len() < s.len() {
            lemma_many_atoms_suffix(rest);
        }
    }
}

/// Read one character.
fn any_char<'a>(input: &'a str) -> (r: ParseResult<'a, char>)
    ensures
        agrees(r, spec_anychar(input@)),
{
    let n = input.unicode_len();
    if n == 0 {
        return Err(ParseError { input, code: ErrorKind::Eof });
    }
    let c = input.get_char(0);
    let rest = input.substring_char(1, n);
    proof {
        assert(rest@ =~= input@.drop_first());
    }
    Ok((rest, c))
}

/// Read a decimal `u64`.
fn decimal_u64<'a>(input: &'a str) -> (r: ParseResult<'a, u64>)
    ensures
        agrees(r, spec_u64(input@)),
{
    let n = input.unicode_len();
    let mut i: usize = 0;
    let mut value: u64 = 0;
    proof {
        assert(input@.take(0) =~= Seq::<char>::empty());
    }
    loop
        invariant
            n == input@.len(),
            i <= n,
            forall|j: int| 0 <= j < i ==> is_digit(#[trigger] input@[j]),
            all_digits(input@.take(i as int)),
            value == digits_value(input@.take(i as int)),
        ensures
            i == n || !is_digit(input@[i as int]),
        decreases n - i,
    {
        if i == n {
            break;
        }
        let c = input.get_char(i);
        if c < '0' || c > '9' {
            break;
        }
        let d = (c as u64) - 48;
        let next: u128 = (value as u128) * 10 + (d as u128);
        proof {
            assert(input@.take(i + 1).drop_last() =~= input@.take(i as int));
            assert(all_digits(input@.take(i + 1)));
        }
        if next > u64::MAX as u128 {
            proof {
                lemma_leading_digits_bound(input@);
                let k = leading_digits(input@);
                assert forall|j: int| 0 <= j <= i implies is_digit(#[trigger] input@[j]) by {}
                if (k as int) < i + 1 {
                    assert(is_digit(input@[k as int]));
                    if k < input@.len() {
                        let t = input@;
                        lemma_leading_digits_first_non_digit(t);
                    }
                }
                assert(k >= i + 1);
                assert(all_digits(input@.take(k as int)));
                lemma_digits_value_mono(input@, i + 1, k as int);
            }
            return Err(ParseError { input, code: ErrorKind::Digit });
        }
        value = next as u64;
        i = i + 1;
    }
    proof {
        lemma_leading_digits(input@, i as int);
    }
    if i == 0 {
        return Err(ParseError { input, code: ErrorKind::Digit });
    }
    let rest = input.substring_char(i, n);
    proof {
        assert(rest@ =~= input@.skip(i as int));
    }
    Ok((rest, value))
}

/// The character after the leading digits, if any, is not a digit.
pub proof fn lemma_leading_digits_first_non_digit(s: Seq<char>)
    requires
        leading_digits(s) < s.len(),
    ensures
        !is_digit(s[leading_digits(s) as int]),
    decreases s.len(),
{
    if s.len() > 0 && is_digit(s[0]) {
        let t = s.drop_first();
        lemma_leading_digits_first_non_digit(t);
        assert(t[leading_digits(t) as int] == s[leading_digits(s) as int]);
    }
}

/// Read a piece letter: upper case for White, lower case for Black.
pub fn algebraic_piece<'a>(input: &'a str) -> (r: ParseResult<'a, (Color, PieceType)>)
    ensures
        agrees(r, spec_algebraic_piece(input@)),
{
    let (rest, ch) = match any_char(input) {
        Ok(v) => v,
        Err(e) => return Err(e),
    };
    if ch == 'p' {
        Ok((rest, (Color::Black, PieceType::Pawn)))
    } else if ch == 'r' {
        Ok((rest, (Color::Black, PieceType::Rook)))
    } else if ch == 'n' {
        Ok((rest, (Color::Black, PieceType::Knight)))
    } else if ch == 'b' {
        Ok((rest, (Color::Black, PieceType::Bishop)))
    } else if ch == 'q' {
        Ok((rest, (Color::Black, PieceType::Queen)))
    } else if ch == 'k' {
        Ok((rest, (Color::Black, PieceType::King)))
    } else if ch == 'P' {
        Ok((rest, (Color::White, PieceType::Pawn)))
    } else if ch == 'R' {
        Ok((rest, (Color::White, PieceType::Rook)))
    } else if ch == 'N' {
        Ok((rest, (Color::White, PieceType::Knight)))
    } else if ch == 'B' {
        Ok((rest, (Color::White, PieceType::Bishop)))
    } else if ch == 'Q' {
        Ok((rest, (Color::White, PieceType::Queen)))
    } else if ch == 'K' {
        Ok((rest, (Color::White, PieceType::King)))
    } else {
        Err(ParseError { input, code: ErrorKind::Fail })
    }
}

/// Read a rank number `1` to `8`, as the rank index 0 to 7.
pub fn algebraic_rank<'a>(input: &'a str) -> (r: ParseResult<'a, u64>)
    requires
        rank_in_domain(input@),
    ensures
        agrees(r, spec_algebraic_rank(input@)),
{
    let (rest, num) = match decimal_u64(input) {
        Ok(v) => v,
        Err(e) => return Err(e),
    };
    if num <= 8 {
        Ok((rest, num - 1))
    } else {
        Err(ParseError { input, code: ErrorKind::Fail })
    }
}

/// Read a file letter `a` to `h`, as the file index 0 to 7.
pub fn algebraic_file<'a>(input: &'a str) -> (r: ParseResult<'a, u64>)
    ensures
        agrees(r, spec_algebraic_file(input@)),
{
    let (rest, ch) = match any_char(input) {
        Ok(v) => v,
        Err(e) => return Err(e),
    };
    if 'a' <= ch && ch <= 'h' {
        Ok((rest, (ch as u64) - 97))
    } else {
        Err(ParseError { input, code: ErrorKind::Fail })
    }
}

/// Read a square such as `e4`, as the pair (file, rank).
pub fn algebraic_square<'a>(input: &'a str) -> (r: ParseResult<'a, (u64, u64)>)
    requires
        square_in_domain(input@),
    ensures
        agrees(r, spec_algebraic_square(input@)),
{
    let (rest, file) = match algebraic_file(input) {
        Ok(v) => v,
        Err(e) => return Err(e),
    };
    let (rest, rank) = match algebraic_rank(rest) {
        Ok(v) => v,
        Err(e) => return Err(e),
    };
    Ok((rest, (file, rank)))
}

/// Read a square such as `e4`, as the bitboard of that square.
pub fn algebraic_square_position<'a>(input: &'a str) -> (r: ParseResult<'a, Bitboard>)
    requires
        square_in_domain(input@),
    ensures
        agrees(r, spec_algebraic_square_position(input@)),
{
    match algebraic_square(input) {
        Ok((rest, (file, rank))) => Ok((rest, Bitboard::new(rank as usize, file as usize))),
        Err(e) => Err(e),
    }
}

/// Read the length of a run of empty squares, 1 to 8.
pub fn fen_gap<'a>(input: &'a str) -> (r: ParseResult<'a, u64>)
    ensures
        agrees(r, spec_fen_gap(input@)),
{
    let (rest, num) = match decimal_u64(input) {
        Ok(v) => v,
        Err(e) => return Err(e),
    };
    if 0 < num && num <= 8 {
        Ok((rest, num))
    } else {
        Err(ParseError { input, code: ErrorKind::Fail })
    }
}

/// Read one item of a FEN rank: a piece letter, or else a run of empty
/// squares.
pub fn fen_atom<'a>(input: &'a str) -> (r: ParseResult<'a, FENAtom>)
    ensures
        agrees(r, spec_fen_atom(input@)),
{
    match algebraic_piece(input) {
        Ok((rest, (color, piece))) => Ok((rest, FENAtom::Piece(color, piece))),
        Err(_) => match fen_gap(input) {
            Ok((rest, gap)) => Ok((rest, FENAtom::Gap(gap as usize))),
            Err(e) => Err(e),
        },
    }
}

/// Read one FEN rank: one or more atoms.
pub fn fen_rank<'a>(input: &'a str) -> (r: ParseResult<'a, Vec<FENAtom>>)
    ensures
        agrees_vec(r, spec_fen_rank(input@)),
{
    let (first_rest, first) = match fen_atom(input) {
        Ok(v) => v,
        Err(e) => return Err(e),
    };
    let mut atoms: Vec<FENAtom> = Vec::new();
    atoms.push(first);
    let mut cur = first_rest;
    loop
        invariant
            atoms@ + many_atoms(cur@).0 == seq![first] + many_atoms(first_rest@).0,
            spec_fen_rank(input@) == SpecResult::<Seq<FENAtom>>::Ok(
                (many_atoms(first_rest@).1, seq![first] + many_atoms(first_rest@).0),
            ),
            many_atoms(cur@).1 == many_atoms(first_rest@).1,
        decreases cur@.len(),
    {
        proof {
            lemma_atom_consumes(cur@);
        }
        match fen_atom(cur) {
            Err(_) => {
                proof {
                    assert(spec_fen_atom(cur@) is Err);
                    assert(many_atoms(cur@).0 =~= Seq::<FENAtom>::empty());
                    assert(many_atoms(cur@).1 == cur@);
                    assert(atoms@ + Seq::<FENAtom>::empty() =~= atoms@);
                    assert(atoms@ =~= seq![first] + many_atoms(first_rest@).0);
                }
                return Ok((cur, atoms));
            },
            Ok((rest, atom)) => {
                proof {
                    let (more, _) = many_atoms(rest@);
                    assert(many_atoms(cur@).0 == seq![atom] + more);
                    assert(atoms@.push(atom) + more =~= atoms@ + (seq![atom] + more));
                }
                atoms.push(atom);
                cur = rest;
            },
        }
    }
}

/// Read a FEN piece placement: one or more ranks separated by `/`.
pub fn fen_board<'a>(input: &'a str) -> (r: ParseResult<'a, Vec<Vec<FENAtom>>>)
    ensures
        agrees_nested(r, spec_fen_board(input@)),
{
    let (first_rest, first) = match fen_rank(input) {
        Ok(v) => v,
        Err(e) => return Err(e),
    };
    let ghost first_view = first@;
    let mut ranks: Vec<Vec<FENAtom>> = Vec::new();
    ranks.push(first);
    let mut cur = first_rest;
    loop
        invariant
            ranks@.map_values(|v: Vec<FENAtom>| v@) + more_ranks(cur@).0 == seq![first_view] + more_ranks(first_rest@).0,
            spec_fen_board(input@) == SpecResult::<Seq<Seq<FENAtom>>>::Ok(
                (more_ranks(first_rest@).1, seq![first_view] + more_ranks(first_rest@).0),
            ),
            more_ranks(cur@).1 == more_ranks(first_rest@).1,
        decreases cur@.len(),
    {
        let n = cur.unicode_len();
        if n == 0 || cur.get_char(0) != '/' {
            proof {
                assert(more_ranks(cur@).0 =~= Seq::<Seq<FENAtom>>::empty());
                assert(more_ranks(cur@).1 == cur@);
                assert(ranks@.map_values(|v: Vec<FENAtom>| v@) + Seq::<Seq<FENAtom>>::empty() =~= ranks@.map_values(|v: Vec<FENAtom>| v@));
            }
            return Ok((cur, ranks));
        }
        let after = cur.substring_char(1, n);
        proof {
            assert(after@ =~= cur@.drop_first());
            lemma_rank_consumes(after@);
        }
        match fen_rank(after) {
            Err(_) => {
                proof {
                    assert(spec_fen_rank(cur@.drop_first()) is Err);
                    assert(more_ranks(cur@).0 =~= Seq::<Seq<FENAtom>>::empty());
                    assert(more_ranks(cur@).1 == cur@);
                    assert(ranks@.map_values(|v: Vec<FENAtom>| v@) + Seq::<Seq<FENAtom>>::empty() =~= ranks@.map_values(|v: Vec<FENAtom>| v@));
                }
                return Ok((cur, ranks));
            },
            Ok((rest, rank)) => {
                proof {
                    let (more, _) = more_ranks(rest@);
                    assert(more_ranks(cur@).0 == seq![rank@] + more);
                    let old_ranks = ranks@;
                    assert(old_ranks.push(rank).map_values(|v: Vec<FENAtom>| v@) =~= old_ranks.map_values(|v: Vec<FENAtom>| v@).push(rank@));
                    assert(old_ranks.map_values(|v: Vec<FENAtom>| v@).push(rank@) + more =~= old_ranks.map_values(|v: Vec<FENAtom>| v@) + (seq![rank@] + more));
                }
                ranks.push(rank);
                cur = rest;
            },
        }
    }
}

/// Read a side letter: `w` or `b`.
pub fn fen_color<'a>(input: &'a str) -> (r: ParseResult<'a, Color>)
    ensures
        agrees(r, spec_fen_color(input@)),
{
    let (rest, ch) = match any_char(input) {
        Ok(v) => v,
        Err(e) => return Err(e),
    };
    if ch == 'w' {
        Ok((rest, Color::White))
    } else if ch == 'b' {
        Ok((rest, Color::Black))
    } else {
        Err(ParseError { input, code: ErrorKind::Fail })
    }
}

/// Read two squares separated by a space, such as `e2 e4`.
pub fn instruction<'a>(input: &'a str) -> (r: ParseResult<'a, (Bitboard, Bitboard)>)
    requires
        instruction_in_domain(input@),
    ensures
        agrees(r, spec_instruction(input@)),
{
    let (rest, from) = match algebraic_square_position(input) {
        Ok(v) => v,
        Err(e) => return Err(e),
    };
    let n = rest.unicode_len();
    if n == 0 || rest.get_char(0) != ' ' {
        return Err(ParseError { input: rest, code: ErrorKind::Char });
    }
    let after = rest.substring_char(1, n);
    proof {
        assert(after@ =~= rest@.drop_first());
    }
    let (rest2, to) = match algebraic_square_position(after) {
        Ok(v) => v,
        Err(e) => return Err(e),
    };
    Ok((rest2, (from, to)))
}

} // verus!
