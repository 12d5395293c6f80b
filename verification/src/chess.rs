//! Plain-value model of the chess vocabulary: colors, piece kinds, squares,
//! moves and 64-bit bitboards (bit `s` stands for square `s`, a1 = 0, h8 = 63).

use vstd::prelude::*;

verus! {

#[derive(Clone, Copy, PartialEq, Eq, Structural, Debug)]
pub enum Color {
    White,
    Black,
}

#[derive(Clone, Copy, PartialEq, Eq, Structural, Debug)]
pub enum Piece {
    Pawn,
    Knight,
    Bishop,
    Rook,
    Queen,
    King,
}

#[derive(Clone, Copy, PartialEq, Eq, Structural, Debug)]
pub enum GameStatus {
    Won,
    Drawn,
    Ongoing,
}

/// A move from one square to another, with an optional promotion piece.
/// Castling is written as the king capturing its own rook.
#[derive(Clone, Copy, PartialEq, Eq, Structural, Debug)]
pub struct ChessMove {
    pub from: u8,
    pub to: u8,
    pub promotion: Option<Piece>,
}

impl Color {
    pub open spec fn to_int(self) -> int {
        match self {
            Color::White => 0,
            Color::Black => 1,
        }
    }

    pub open spec fn opp(self) -> Color {
        match self {
            Color::White => Color::Black,
            Color::Black => Color::White,
        }
    }

    pub open spec fn of_int(i: int) -> Color {
        if i == 0 {
            Color::White
        } else {
            Color::Black
        }
    }

    pub fn index(self) -> (r: usize)
        ensures
            r == self.to_int(),
            r < 2,
    {
        match self {
            Color::White => 0,
            Color::Black => 1,
        }
    }

    pub fn other(self) -> (r: Color)
        ensures
            r == self.opp(),
    {
        match self {
            Color::White => Color::Black,
            Color::Black => Color::White,
        }
    }

    pub fn from_index(i: usize) -> (r: Color)
        requires
            i < 2,
        ensures
            r.to_int() == i,
            r == Color::of_int(i as int),
    {
        if i == 0 {
            Color::White
        } else {
            Color::Black
        }
    }
}

impl Piece {
    pub open spec fn to_int(self) -> int {
        match self {
            Piece::Pawn => 0,
            Piece::Knight => 1,
            Piece::Bishop => 2,
            Piece::Rook => 3,
            Piece::Queen => 4,
            Piece::King => 5,
        }
    }

    pub open spec fn of_int(i: int) -> Piece {
        if i == 0 {
            Piece::Pawn
        } else if i == 1 {
            Piece::Knight
        } else if i == 2 {
            Piece::Bishop
        } else if i == 3 {
            Piece::Rook
        } else if i == 4 {
            Piece::Queen
        } else {
            Piece::King
        }
    }

    pub fn index(self) -> (r: usize)
        ensures
            r == self.to_int(),
            r < 6,
    {
        match self {
            Piece::Pawn => 0,
            Piece::Knight => 1,
            Piece::Bishop => 2,
            Piece::Rook => 3,
            Piece::Queen => 4,
            Piece::King => 5,
        }
    }

    pub fn from_index(i: usize) -> (r: Piece)
        requires
            i < 6,
        ensures
            r.to_int() == i,
            r == Piece::of_int(i as int),
    {
        if i == 0 {
            Piece::Pawn
        } else if i == 1 {
            Piece::Knight
        } else if i == 2 {
            Piece::Bishop
        } else if i == 3 {
            Piece::Rook
        } else if i == 4 {
            Piece::Queen
        } else {
            Piece::King
        }
    }
}

pub open spec fn square_file(s: int) -> int {
    s % 8
}

pub open spec fn square_rank(s: int) -> int {
    s / 8
}

pub open spec fn make_square(file: int, rank: int) -> int {
    rank * 8 + file
}

/// Rank `r` seen from `color`'s side of the board.
pub open spec fn relative_rank(r: int, color: Color) -> int {
    match color {
        Color::White => r,
        Color::Black => 7 - r,
    }
}

pub fn rank_relative_to(r: u8, color: Color) -> (out: u8)
    requires
        r < 8,
    ensures
        out == relative_rank(r as int, color),
        out < 8,
{
    match color {
        Color::White => r,
        Color::Black => 7 - r,
    }
}

pub fn new_square(file: u8, rank: u8) -> (s: u8)
    requires
        file < 8,
        rank < 8,
    ensures
        s == make_square(file as int, rank as int),
        s < 64,
        square_file(s as int) == file,
        square_rank(s as int) == rank,
{
    rank * 8 + file
}

/// Square `s` is a member of bitboard `bb`.
pub open spec fn has(bb: u64, s: int) -> bool {
    0 <= s < 64 && (bb >> (s as u64)) & 1 == 1
}

/// The bitboard holding the single square `s`.
pub open spec fn square_bb(s: int) -> u64 {
    1u64 << (s as u64)
}

/// Sum of `f` over the squares of `bb` below `n`.
pub open spec fn sum_squares(bb: u64, f: spec_fn(int) -> int, n: int) -> int
    decreases n,
{
    if n <= 0 {
        0
    } else {
        sum_squares(bb, f, n - 1) + if has(bb, n - 1) {
            f(n - 1)
        } else {
            0
        }
    }
}

/// Number of squares of `bb` below `n`.
pub open spec fn count_upto(bb: u64, n: int) -> int
    decreases n,
{
    if n <= 0 {
        0
    } else {
        count_upto(bb, n - 1) + if has(bb, n - 1) {
            1int
        } else {
            0
        }
    }
}

/// Number of squares in `bb`.
pub open spec fn popcount(bb: u64) -> int {
    count_upto(bb, 64)
}

pub proof fn lemma_has_and(a: u64, b: u64, s: int)
    requires
        0 <= s < 64,
    ensures
        has(a & b, s) == (has(a, s) && has(b, s)),
{
    let t = s as u64;
    assert((((a & b) >> t) & 1 == 1) == (((a >> t) & 1 == 1) && ((b >> t) & 1 == 1))) by (bit_vector)
        requires
            t < 64,
    ;
}

pub proof fn lemma_has_or(a: u64, b: u64, s: int)
    requires
        0 <= s < 64,
    ensures
        has(a | b, s) == (has(a, s) || has(b, s)),
{
    let t = s as u64;
    assert((((a | b) >> t) & 1 == 1) == (((a >> t) & 1 == 1) || ((b >> t) & 1 == 1))) by (bit_vector)
        requires
            t < 64,
    ;
}

pub proof fn lemma_count_bounds(bb: u64, n: int)
    requires
        0 <= n,
    ensures
        0 <= count_upto(bb, n) <= n,
    decreases n,
{
    if n > 0 {
        lemma_count_bounds(bb, n - 1);
    }
}

/// Masking a bitboard keeps no more squares than it had.
pub proof fn lemma_count_and_le(a: u64, m: u64, n: int)
    requires
        0 <= n <= 64,
    ensures
        count_upto(a & m, n) <= count_upto(a, n),
    decreases n,
{
    if n > 0 {
        lemma_count_and_le(a, m, n - 1);
        lemma_has_and(a, m, n - 1);
    }
}

/// A union holds no more squares than its two parts together.
pub proof fn lemma_count_or_le(a: u64, b: u64, n: int)
    requires
        0 <= n <= 64,
    ensures
        count_upto(a | b, n) <= count_upto(a, n) + count_upto(b, n),
    decreases n,
{
    if n > 0 {
        lemma_count_or_le(a, b, n - 1);
        lemma_has_or(a, b, n - 1);
    }
}

/// The lowest square of `bb` at or above `from` (64 when there is none).
pub open spec fn lowest_from(bb: u64, from: int) -> int
    decreases 64 - from,
{
    if from >= 64 {
        64
    } else if has(bb, from) {
        from
    } else {
        lowest_from(bb, from + 1)
    }
}

/// The lowest square of `bb` (64 when `bb` is empty).
pub open spec fn lowest_square(bb: u64) -> int {
    lowest_from(bb, 0)
}

pub fn bb_has(bb: u64, s: u8) -> (r: bool)
    requires
        s < 64,
    ensures
        r == has(bb, s as int),
{
    (bb >> s) & 1 == 1
}

pub fn bb_of_square(s: u8) -> (r: u64)
    requires
        s < 64,
    ensures
        r == square_bb(s as int),
{
    1u64 << s
}

pub proof fn lemma_sum_squares_bounds(bb: u64, f: spec_fn(int) -> int, n: int, lo: int, hi: int)
    requires
        0 <= n <= 64,
        lo <= 0 <= hi,
        forall|s: int| 0 <= s < 64 ==> lo <= #[trigger] f(s) <= hi,
    ensures
        n * lo <= sum_squares(bb, f, n) <= n * hi,
    decreases n,
{
    if n > 0 {
        lemma_sum_squares_bounds(bb, f, n - 1, lo, hi);
        assert(n * lo == (n - 1) * lo + lo) by (nonlinear_arith);
        assert(n * hi == (n - 1) * hi + hi) by (nonlinear_arith);
    } else {
        assert(n == 0);
    }
}

/// Number of squares in `bb`, as `BitBoard::len` counts them.
pub fn bb_len(bb: u64) -> (r: u32)
    ensures
        r == popcount(bb),
        r <= 64,
{
    let mut count: u32 = 0;
    let mut s: u8 = 0;
    while s < 64
        invariant
            s <= 64,
            count == count_upto(bb, s as int),
            count <= s,
        decreases 64 - s,
    {
        if bb_has(bb, s) {
            count = count + 1;
        }
        s = s + 1;
    }
    count
}

/// The lowest square of a nonempty bitboard, as `BitBoard::next_square` gives it.
pub fn bb_lowest(bb: u64) -> (r: u8)
    ensures
        r == lowest_square(bb),
        r <= 64,
{
    let mut s: u8 = 0;
    while s < 64
        invariant
            s <= 64,
            lowest_from(bb, 0) == lowest_from(bb, s as int),
        decreases 64 - s,
    {
        if bb_has(bb, s) {
            return s;
        }
        s = s + 1;
    }
    64
}

/// A bitboard with none of its 64 bits set is empty.
pub proof fn lemma_no_bits_empty(bb: u64)
    requires
        forall|s: int| 0 <= s < 64 ==> !#[trigger] has(bb, s),
    ensures
        bb == 0,
{
    assert(has(bb, 0) == false);
    assert(has(bb, 1) == false);
    assert(has(bb, 2) == false);
    assert(has(bb, 3) == false);
    assert(has(bb, 4) == false);
    assert(has(bb, 5) == false);
    assert(has(bb, 6) == false);
    assert(has(bb, 7) == false);
    assert(has(bb, 8) == false);
    assert(has(bb, 9) == false);
    assert(has(bb, 10) == false);
    assert(has(bb, 11) == false);
    assert(has(bb, 12) == false);
    assert(has(bb, 13) == false);
    assert(has(bb, 14) == false);
    assert(has(bb, 15) == false);
    assert(has(bb, 16) == false);
    assert(has(bb, 17) == false);
    assert(has(bb, 18) == false);
    assert(has(bb, 19) == false);
    assert(has(bb, 20) == false);
    assert(has(bb, 21) == false);
    assert(has(bb, 22) == false);
    assert(has(bb, 23) == false);
    assert(has(bb, 24) == false);
    assert(has(bb, 25) == false);
    assert(has(bb, 26) == false);
    assert(has(bb, 27) == false);
    assert(has(bb, 28) == false);
    assert(has(bb, 29) == false);
    assert(has(bb, 30) == false);
    assert(has(bb, 31) == false);
    assert(has(bb, 32) == false);
    assert(has(bb, 33) == false);
    assert(has(bb, 34) == false);
    assert(has(bb, 35) == false);
    assert(has(bb, 36) == false);
    assert(has(bb, 37) == false);
    assert(has(bb, 38) == false);
    assert(has(bb, 39) == false);
    assert(has(bb, 40) == false);
    assert(has(bb, 41) == false);
    assert(has(bb, 42) == false);
    assert(has(bb, 43) == false);
    assert(has(bb, 44) == false);
    assert(has(bb, 45) == false);
    assert(has(bb, 46) == false);
    assert(has(bb, 47) == false);
    assert(has(bb, 48) == false);
    assert(has(bb, 49) == false);
    assert(has(bb, 50) == false);
    assert(has(bb, 51) == false);
    assert(has(bb, 52) == false);
    assert(has(bb, 53) == false);
    assert(has(bb, 54) == false);
    assert(has(bb, 55) == false);
    assert(has(bb, 56) == false);
    assert(has(bb, 57) == false);
    assert(has(bb, 58) == false);
    assert(has(bb, 59) == false);
    assert(has(bb, 60) == false);
    assert(has(bb, 61) == false);
    assert(has(bb, 62) == false);
    assert(has(bb, 63) == false);
    assert(bb == 0) by (bit_vector)
        requires
            (bb >> 0u64) & 1 != 1,
            (bb >> 1u64) & 1 != 1,
            (bb >> 2u64) & 1 != 1,
            (bb >> 3u64) & 1 != 1,
            (bb >> 4u64) & 1 != 1,
            (bb >> 5u64) & 1 != 1,
            (bb >> 6u64) & 1 != 1,
            (bb >> 7u64) & 1 != 1,
            (bb >> 8u64) & 1 != 1,
            (bb >> 9u64) & 1 != 1,
            (bb >> 10u64) & 1 != 1,
            (bb >> 11u64) & 1 != 1,
            (bb >> 12u64) & 1 != 1,
            (bb >> 13u64) & 1 != 1,
            (bb >> 14u64) & 1 != 1,
            (bb >> 15u64) & 1 != 1,
            (bb >> 16u64) & 1 != 1,
            (bb >> 17u64) & 1 != 1,
            (bb >> 18u64) & 1 != 1,
            (bb >> 19u64) & 1 != 1,
            (bb >> 20u64) & 1 != 1,
            (bb >> 21u64) & 1 != 1,
            (bb >> 22u64) & 1 != 1,
            (bb >> 23u64) & 1 != 1,
            (bb >> 24u64) & 1 != 1,
            (bb >> 25u64) & 1 != 1,
            (bb >> 26u64) & 1 != 1,
            (bb >> 27u64) & 1 != 1,
            (bb >> 28u64) & 1 != 1,
            (bb >> 29u64) & 1 != 1,
            (bb >> 30u64) & 1 != 1,
            (bb >> 31u64) & 1 != 1,
            (bb >> 32u64) & 1 != 1,
            (bb >> 33u64) & 1 != 1,
            (bb >> 34u64) & 1 != 1,
            (bb >> 35u64) & 1 != 1,
            (bb >> 36u64) & 1 != 1,
            (bb >> 37u64) & 1 != 1,
            (bb >> 38u64) & 1 != 1,
            (bb >> 39u64) & 1 != 1,
            (bb >> 40u64) & 1 != 1,
            (bb >> 41u64) & 1 != 1,
            (bb >> 42u64) & 1 != 1,
            (bb >> 43u64) & 1 != 1,
            (bb >> 44u64) & 1 != 1,
            (bb >> 45u64) & 1 != 1,
            (bb >> 46u64) & 1 != 1,
            (bb >> 47u64) & 1 != 1,
            (bb >> 48u64) & 1 != 1,
            (bb >> 49u64) & 1 != 1,
            (bb >> 50u64) & 1 != 1,
            (bb >> 51u64) & 1 != 1,
            (bb >> 52u64) & 1 != 1,
            (bb >> 53u64) & 1 != 1,
            (bb >> 54u64) & 1 != 1,
            (bb >> 55u64) & 1 != 1,
            (bb >> 56u64) & 1 != 1,
            (bb >> 57u64) & 1 != 1,
            (bb >> 58u64) & 1 != 1,
            (bb >> 59u64) & 1 != 1,
            (bb >> 60u64) & 1 != 1,
            (bb >> 61u64) & 1 != 1,
            (bb >> 62u64) & 1 != 1,
            (bb >> 63u64) & 1 != 1,
    ;
}

proof fn lemma_lowest_from_none(bb: u64, k: int)
    requires
        0 <= k <= 64,
        lowest_from(bb, k) == 64,
    ensures
        forall|s: int| k <= s < 64 ==> !#[trigger] has(bb, s),
    decreases 64 - k,
{
    if k < 64 {
        lemma_lowest_from_none(bb, k + 1);
    }
}

proof fn lemma_lowest_from_found(bb: u64, k: int)
    requires
        0 <= k <= 64,
        lowest_from(bb, k) < 64,
    ensures
        has(bb, lowest_from(bb, k)),
        k <= lowest_from(bb, k),
    decreases 64 - k,
{
    if k < 64 && has(bb, k) == false {
        lemma_lowest_from_found(bb, k + 1);
    }
}

/// The lowest square of a nonempty bitboard is one of its squares.
pub proof fn lemma_lowest_of_nonempty(bb: u64)
    requires
        bb != 0,
    ensures
        0 <= lowest_square(bb) < 64,
        has(bb, lowest_square(bb)),
{
    if lowest_from(bb, 0) >= 64 {
        lemma_lowest_from_bounded(bb, 0);
        lemma_lowest_from_none(bb, 0);
        lemma_no_bits_empty(bb);
    }
    lemma_lowest_from_bounded(bb, 0);
    lemma_lowest_from_found(bb, 0);
}

proof fn lemma_lowest_from_bounded(bb: u64, k: int)
    requires
        0 <= k <= 64,
    ensures
        k <= lowest_from(bb, k) <= 64,
    decreases 64 - k,
{
    if k < 64 {
        lemma_lowest_from_bounded(bb, k + 1);
    }
}

} // verus!
