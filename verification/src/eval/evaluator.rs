//! Static evaluation: tapered material, piece-square tables, mobility and
//! pawn-structure terms, from the point of view of the side to move.

use vstd::prelude::*;
use crate::board::{
    between, between_rays, bishop_attacks, bishop_moves, board_colors, board_pieces, board_side,
    board_valid,
    colored, colors, king, king_attacks, king_moves, knight_attacks, knight_moves,
    occupied, occupied_spec, pawn_attack_set, pawn_attacks, pawn_quiets, pawn_quiets_spec,
    pieces, rook_attacks, rook_moves, side_to_move,
};
use crate::chess::{
    Color, Piece, bb_has, bb_len, bb_of_square, has, lemma_count_and_le,
    lemma_count_or_le, lowest_square, make_square, new_square, popcount, rank_relative_to,
    relative_rank, square_bb, square_file, sum_squares,
};
use crate::eval::draw_oracle::{oracle_lookup, oracle_spec};
use crate::eval::eval_info::{
    B, BISHOP, BISHOP_MOBILITY, BISHOP_PAIR_BONUS, CONNECTED_PASSED_PAWN, K, KING_MOBILITY,
    KING_ON_OPEN_FILE, KING_ON_SEMI_OPEN_FILE, KNIGHT, KNIGHT_MOBILITY, N,
    P, PASSED_PAWN_BONUS, PAWN, PAWN_ISLAND_PENALTY, PAWN_ISOLATION_PENALTY, PAWN_MOBILITY, Q,
    QUEEN, QUEEN_MOBILITY, R, ROOK, ROOK_MOBILITY, ROOK_OPEN_FILE_BONUS, ROOK_SEMI_FILE_BONUS,
    TEMPO, VIRTUAL_MOBILITY,
};
use crate::eval::score::{Score, lemma_tapered_bound, lemma_tapered_constant, lemma_tapered_endpoints, phase_in_range, tapered, trunc_div};

verus! {

/// Phase weights of the pieces; the phase falls from 24 as pieces leave.
pub const PAWN_PHASE: i32 = 0;
pub const KNIGHT_PHASE: i32 = 1;
pub const BISHOP_PHASE: i32 = 1;
pub const ROOK_PHASE: i32 = 2;
pub const QUEEN_PHASE: i32 = 4;
pub const TOTAL_PIECE_PHASE: i32 = 24;

/// The divisor applied to the score of a known draw.
pub const ORACLE_SCALE: i32 = 100;

/// A weight pair tapered by the phase.
pub open spec fn taper2(t: [i32; 2], ph: int) -> int {
    tapered(t[0] as int, t[1] as int, ph)
}

/// The game phase, from 256 (only pawns and kings) downward as pieces are added,
/// scaled from the 24 phase points of the starting material.
pub open spec fn phase_spec(b: cozy_chess::Board) -> int {
    let raw = 24 - popcount(board_pieces(b)[0]) * 0 - popcount(board_pieces(b)[1]) - popcount(
        board_pieces(b)[2],
    ) - popcount(board_pieces(b)[3]) * 2 - popcount(board_pieces(b)[4]) * 4;
    trunc_div(raw * 256 + 12, 24)
}

pub fn calculate_phase(board: &cozy_chess::Board) -> (phase: i32)
    ensures
        phase == phase_spec(*board),
        phase_in_range(phase as int),
{
    let mut phase = TOTAL_PIECE_PHASE;

    let pawns = pieces(board, Piece::Pawn);
    let knights = pieces(board, Piece::Knight);
    let bishops = pieces(board, Piece::Bishop);
    let rooks = pieces(board, Piece::Rook);
    let queens = pieces(board, Piece::Queen);

    phase = phase - bb_len(pawns) as i32 * PAWN_PHASE;
    phase = phase - bb_len(knights) as i32 * KNIGHT_PHASE;
    phase = phase - bb_len(bishops) as i32 * BISHOP_PHASE;
    phase = phase - bb_len(rooks) as i32 * ROOK_PHASE;
    phase = phase - bb_len(queens) as i32 * QUEEN_PHASE;

    phase = (phase * 256 + (TOTAL_PIECE_PHASE / 2)) / TOTAL_PIECE_PHASE;

    phase
}

/// The index into the piece-square tables: the square itself for White,
/// mirrored top to bottom for Black.
pub open spec fn mirror(c: Color, s: int) -> int {
    match c {
        Color::White => s,
        Color::Black => (s as u8 ^ 56u8) as int,
    }
}

pub open spec fn pst_score(p: Piece, i: int, ph: int) -> int {
    match p {
        Piece::Pawn => taper2(P[i], ph),
        Piece::Knight => taper2(N[i], ph),
        Piece::Bishop => taper2(B[i], ph),
        Piece::Rook => taper2(R[i], ph),
        Piece::Queen => taper2(Q[i], ph),
        Piece::King => taper2(K[i], ph),
    }
}

/// The material weight of a piece; the king has none.
pub open spec fn weight_score(p: Piece, ph: int) -> int {
    match p {
        Piece::Pawn => taper2(PAWN, ph),
        Piece::Knight => taper2(KNIGHT, ph),
        Piece::Bishop => taper2(BISHOP, ph),
        Piece::Rook => taper2(ROOK, ph),
        Piece::Queen => taper2(QUEEN, ph),
        Piece::King => 0,
    }
}

/// The number of entries of the mobility table of a piece.
pub open spec fn mobility_len(p: Piece) -> int {
    match p {
        Piece::Pawn => 5,
        Piece::Knight => 9,
        Piece::Bishop => 14,
        Piece::Rook => 15,
        Piece::Queen => 28,
        Piece::King => 9,
    }
}

pub open spec fn mobility_score(p: Piece, i: int, ph: int) -> int {
    match p {
        Piece::Pawn => taper2(PAWN_MOBILITY[i], ph),
        Piece::Knight => taper2(KNIGHT_MOBILITY[i], ph),
        Piece::Bishop => taper2(BISHOP_MOBILITY[i], ph),
        Piece::Rook => taper2(ROOK_MOBILITY[i], ph),
        Piece::Queen => taper2(QUEEN_MOBILITY[i], ph),
        Piece::King => taper2(KING_MOBILITY[i], ph),
    }
}

/// The squares a piece on `s` could move to, counting captures, as mobility
/// counts them: sliders as if the board were empty, never onto own pieces.
pub open spec fn feasible(b: cozy_chess::Board, p: Piece, c: Color, s: int) -> u64 {
    let ours = board_colors(b)[c.to_int()];
    match p {
        Piece::Pawn => pawn_quiets_spec(s, c, occupied_spec(b)) | (pawn_attack_set(s, c) & !ours),
        Piece::Knight => knight_attacks(s) & !ours,
        Piece::Bishop => bishop_attacks(s, 0) & !ours,
        Piece::Rook => rook_attacks(s, 0) & !ours,
        Piece::Queen => (bishop_attacks(s, 0) | rook_attacks(s, 0)) & !ours,
        Piece::King => king_attacks(s) & !ours,
    }
}

/// The file of a square as a bitboard.
pub open spec fn file_bb(f: int) -> u64 {
    0x0101_0101_0101_0101u64 << (f as u64)
}

/// The square on the file of `s` at the rank where `c`'s pawns promote.
pub open spec fn promo_square(s: int, c: Color) -> int {
    make_square(square_file(s), relative_rank(7, c))
}

/// The squares in front of a pawn on its own file and on the files beside it,
/// the squares it attacks included.
pub open spec fn passed_mask(att: u64, s: int, c: Color, n: int) -> u64
    decreases n,
{
    if n <= 0 {
        between_rays(s, promo_square(s, c))
    } else if has(att, n - 1) {
        passed_mask(att, s, c, n - 1) | (between_rays(n - 1, promo_square(n - 1, c)) | square_bb(
            n - 1,
        ))
    } else {
        passed_mask(att, s, c, n - 1)
    }
}

/// The squares of the files beside a pawn, first to last rank exclusive.
pub open spec fn neighbour_mask(att: u64, c: Color, n: int) -> u64
    decreases n,
{
    if n <= 0 {
        0
    } else if has(att, n - 1) {
        neighbour_mask(att, c, n - 1) | between_rays(
            make_square(square_file(n - 1), relative_rank(0, c)),
            make_square(square_file(n - 1), relative_rank(7, c)),
        )
    } else {
        neighbour_mask(att, c, n - 1)
    }
}

pub open spec fn our_pawns(b: cozy_chess::Board, c: Color) -> u64 {
    board_pieces(b)[0] & board_colors(b)[c.to_int()]
}

/// A pawn with no enemy pawn ahead of it on its file or the files beside it, and
/// none of its own pawns ahead of it on its file.
pub open spec fn is_passed(b: cozy_chess::Board, c: Color, s: int) -> bool {
    let enemy = board_pieces(b)[0] & board_colors(b)[c.opp().to_int()];
    (enemy & passed_mask(pawn_attack_set(s, c), s, c, 64)) == 0 && (our_pawns(b, c) & between_rays(
        s,
        promo_square(s, c),
    )) == 0
}

/// A pawn with one of its own pawns ahead of it on its file.
pub open spec fn is_island(b: cozy_chess::Board, c: Color, s: int) -> bool {
    (our_pawns(b, c) & between_rays(s, promo_square(s, c))) != 0
}

/// A pawn with none of its own pawns on the files beside it.
pub open spec fn is_isolated(b: cozy_chess::Board, c: Color, s: int) -> bool {
    (our_pawns(b, c) & neighbour_mask(pawn_attack_set(s, c), c, 64)) == 0
}

/// The kinds of per-square terms of the evaluation.
#[derive(Clone, Copy)]
pub enum Term {
    Material(Piece),
    Mobility(Piece),
    Passed,
    Island,
    Isolated,
    RookFile,
    Connected,
}

/// What a piece or pawn on `s` adds to the evaluation of its side.
pub open spec fn term_value(b: cozy_chess::Board, t: Term, c: Color, ph: int, s: int) -> int {
    match t {
        Term::Material(p) => weight_score(p, ph) + pst_score(p, mirror(c, s), ph),
        Term::Mobility(p) => mobility_score(p, popcount(feasible(b, p, c, s)), ph),
        Term::Passed => if is_passed(b, c, s) {
            taper2(PASSED_PAWN_BONUS, ph)
        } else {
            0
        },
        Term::Island => if is_island(b, c, s) {
            taper2(PAWN_ISLAND_PENALTY, ph)
        } else {
            0
        },
        Term::Isolated => if is_isolated(b, c, s) {
            taper2(PAWN_ISOLATION_PENALTY, ph)
        } else {
            0
        },
        Term::RookFile => {
            let f = file_bb(square_file(s));
            if (board_pieces(b)[0] & f) == 0 {
                taper2(ROOK_OPEN_FILE_BONUS, ph)
            } else if (our_pawns(b, c) & f) == 0 {
                taper2(ROOK_SEMI_FILE_BONUS, ph)
            } else {
                0
            }
        },
        Term::Connected => connected_value(b, c, ph, s),
    }
}

/// The bonus of a pawn for each own pawn defending it.
#[verifier::opaque]
pub open spec fn connected_value(b: cozy_chess::Board, c: Color, ph: int, s: int) -> int {
    taper2(CONNECTED_PASSED_PAWN, ph) * popcount(pawn_attack_set(s, c.opp()) & our_pawns(b, c))
}

/// The penalty for the king's file: one without pawns, or without own pawns.
pub open spec fn king_file_spec(b: cozy_chess::Board, c: Color, ph: int) -> int {
    let f = file_bb(square_file(lowest_square(colored(b, c, Piece::King))));
    if (board_pieces(b)[0] & f) == 0 {
        taper2(KING_ON_OPEN_FILE, ph)
    } else if (our_pawns(b, c) & f) == 0 {
        taper2(KING_ON_SEMI_OPEN_FILE, ph)
    } else {
        0
    }
}

pub open spec fn term_f(b: cozy_chess::Board, t: Term, c: Color, ph: int) -> spec_fn(int) -> int {
    |s: int| term_value(b, t, c, ph, s)
}

/// The sum of a term over the squares of `bb`.
pub open spec fn term_sum(b: cozy_chess::Board, bb: u64, t: Term, c: Color, ph: int) -> int {
    sum_squares(bb, term_f(b, t, c, ph), 64)
}

/// Material and piece-square values (or mobility) of all piece kinds below `n`.
pub open spec fn pieces_sum(b: cozy_chess::Board, mobility: bool, c: Color, ph: int, n: int) -> int
    decreases n,
{
    if n <= 0 {
        0
    } else {
        let p = Piece::of_int(n - 1);
        pieces_sum(b, mobility, c, ph, n - 1) + term_sum(
            b,
            colored(b, c, p),
            if mobility {
                Term::Mobility(p)
            } else {
                Term::Material(p)
            },
            c,
            ph,
        )
    }
}

/// The queen moves from the king's square, as if a queen stood there.
pub open spec fn virtual_mobility_spec(b: cozy_chess::Board, c: Color, ph: int) -> int {
    let k = lowest_square(colored(b, c, Piece::King));
    let occ = occupied_spec(b);
    let moves = (bishop_attacks(k, occ) | rook_attacks(k, occ)) & !board_colors(b)[c.to_int()];
    taper2(VIRTUAL_MOBILITY[popcount(moves)], ph)
}

pub open spec fn bishop_pair_spec(b: cozy_chess::Board, c: Color, ph: int) -> int {
    if popcount(board_pieces(b)[2] & board_colors(b)[c.to_int()]) >= 2 {
        taper2(BISHOP_PAIR_BONUS, ph)
    } else {
        0
    }
}

/// The evaluation of one side.
#[verifier::opaque]
pub open spec fn side_eval(b: cozy_chess::Board, c: Color, ph: int) -> int {
    let ours = board_colors(b)[c.to_int()];
    pieces_sum(b, false, c, ph, 6) + pieces_sum(b, true, c, ph, 6) + virtual_mobility_spec(b, c, ph)
        + bishop_pair_spec(b, c, ph) + term_sum(b, our_pawns(b, c), Term::Connected, c, ph)
        + king_file_spec(b, c, ph) + term_sum(b, our_pawns(b, c), Term::Passed, c, ph) + term_sum(
        b,
        our_pawns(b, c),
        Term::Island,
        c,
        ph,
    ) + term_sum(b, our_pawns(b, c), Term::Isolated, c, ph) + term_sum(
        b,
        ours & board_pieces(b)[3],
        Term::RookFile,
        c,
        ph,
    )
}

/// The evaluation from the side to move's point of view: White's side minus
/// Black's, the tempo bonus for the side to move, scaled down for a known draw.
pub open spec fn evaluate_spec(b: cozy_chess::Board) -> int {
    let ph = phase_spec(b);
    let e0 = side_eval(b, Color::White, ph) - side_eval(b, Color::Black, ph);
    let e1 = if board_side(b) == Color::White {
        e0 + taper2(TEMPO, ph)
    } else {
        e0 - taper2(TEMPO, ph)
    };
    let e2 = if oracle_spec(b) {
        trunc_div(e1, ORACLE_SCALE as int)
    } else {
        e1
    };
    if board_side(b) == Color::White {
        e2
    } else {
        -e2
    }
}

/// The bound of one tapered weight, with the phase in range.
pub open spec fn term_bound() -> int {
    120000
}

/// A tapered weight.
fn taper(t: [i32; 2], phase: i32) -> (r: i32)
    requires
        -1100 <= t[0] <= 1100,
        -1100 <= t[1] <= 1100,
        phase_in_range(phase as int),
    ensures
        r == taper2(t, phase as int),
        -60000 <= r <= 60000,
{
    proof {
        lemma_tapered_bound(t[0] as int, t[1] as int, phase as int);
    }
    Score::new(t[0], t[1]).eval(phase)
}

fn mobility_weight(piece: Piece, i: usize, phase: i32) -> (r: i32)
    requires
        i < mobility_len(piece),
        phase_in_range(phase as int),
    ensures
        r == mobility_score(piece, i as int, phase as int),
        -60000 <= r <= 60000,
{
    match piece {
        Piece::Pawn => taper(PAWN_MOBILITY[i], phase),
        Piece::Knight => taper(KNIGHT_MOBILITY[i], phase),
        Piece::Bishop => taper(BISHOP_MOBILITY[i], phase),
        Piece::Rook => taper(ROOK_MOBILITY[i], phase),
        Piece::Queen => taper(QUEEN_MOBILITY[i], phase),
        Piece::King => taper(KING_MOBILITY[i], phase),
    }
}

fn square_index(color: Color, square: u8) -> (r: usize)
    requires
        square < 64,
    ensures
        r == mirror(color, square as int),
        r < 64,
{
    match color {
        Color::White => square as usize,
        Color::Black => {
            assert(square ^ 56u8 < 64) by (bit_vector)
                requires
                    square < 64,
            ;
            (square ^ 0x38) as usize
        },
    }
}

fn material_value(piece: Piece, color: Color, square: u8, phase: i32) -> (r: i32)
    requires
        square < 64,
        phase_in_range(phase as int),
    ensures
        r == weight_score(piece, phase as int) + pst_score(piece, mirror(color, square as int), phase as int),
        -term_bound() <= r <= term_bound(),
{
    let i = square_index(color, square);
    match piece {
        Piece::Pawn => taper(PAWN, phase) + taper(P[i], phase),
        Piece::Knight => taper(KNIGHT, phase) + taper(N[i], phase),
        Piece::Bishop => taper(BISHOP, phase) + taper(B[i], phase),
        Piece::Rook => taper(ROOK, phase) + taper(R[i], phase),
        Piece::Queen => taper(QUEEN, phase) + taper(Q[i], phase),
        Piece::King => taper(K[i], phase),
    }
}

fn feasible_moves(board: &cozy_chess::Board, piece: Piece, color: Color, square: u8) -> (r: u64)
    requires
        square < 64,
    ensures
        r == feasible(*board, piece, color, square as int),
        popcount(r) < mobility_len(piece),
{
    let our_pieces = colors(board, color);
    let occ = occupied(board);
    match piece {
        Piece::Pawn => {
            let quiets = pawn_quiets(square, color, occ);
            let attacks = pawn_attacks(square, color);
            proof {
                lemma_count_and_le(attacks, !our_pieces, 64);
                lemma_count_or_le(quiets, attacks & !our_pieces, 64);
            }
            quiets | (attacks & !our_pieces)
        },
        Piece::Knight => {
            let m = knight_moves(square);
            proof {
                lemma_count_and_le(m, !our_pieces, 64);
            }
            m & !our_pieces
        },
        Piece::Bishop => {
            let m = bishop_moves(square, 0);
            proof {
                lemma_count_and_le(m, !our_pieces, 64);
            }
            m & !our_pieces
        },
        Piece::Rook => {
            let m = rook_moves(square, 0);
            proof {
                lemma_count_and_le(m, !our_pieces, 64);
            }
            m & !our_pieces
        },
        Piece::Queen => {
            let bm = bishop_moves(square, 0);
            let rm = rook_moves(square, 0);
            proof {
                lemma_count_or_le(bm, rm, 64);
                lemma_count_and_le(bm | rm, !our_pieces, 64);
            }
            (bm | rm) & !our_pieces
        },
        Piece::King => {
            let m = king_moves(square);
            proof {
                lemma_count_and_le(m, !our_pieces, 64);
            }
            m & !our_pieces
        },
    }
}

fn file_bitboard(file: u8) -> (r: u64)
    requires
        file < 8,
    ensures
        r == file_bb(file as int),
{
    0x0101_0101_0101_0101u64 << file
}

fn promo_goal(square: u8, color: Color) -> (r: u8)
    requires
        square < 64,
    ensures
        r == promo_square(square as int, color),
        r < 64,
{
    new_square(square % 8, rank_relative_to(7, color))
}

fn passed_block_mask(square: u8, color: Color) -> (r: u64)
    requires
        square < 64,
    ensures
        r == passed_mask(pawn_attack_set(square as int, color), square as int, color, 64),
{
    let pawn_goal = promo_goal(square, color);
    let mut block_mask = between(square, pawn_goal);
    let att = pawn_attacks(square, color);
    let mut t: u8 = 0;
    while t < 64
        invariant
            t <= 64,
            square < 64,
            att == pawn_attack_set(square as int, color),
            block_mask == passed_mask(att, square as int, color, t as int),
        decreases 64 - t,
    {
        if bb_has(att, t) {
            let goal = promo_goal(t, color);
            let checking_file = between(t, goal);
            block_mask = block_mask | (checking_file | bb_of_square(t));
        }
        t = t + 1;
    }
    block_mask
}

fn neighbour_block_mask(square: u8, color: Color) -> (r: u64)
    requires
        square < 64,
    ensures
        r == neighbour_mask(pawn_attack_set(square as int, color), color, 64),
{
    let beginning_rank = rank_relative_to(0, color);
    let promo_rank = rank_relative_to(7, color);
    let mut block_mask: u64 = 0;
    let att = pawn_attacks(square, color);
    let mut t: u8 = 0;
    while t < 64
        invariant
            t <= 64,
            beginning_rank == relative_rank(0, color),
            promo_rank == relative_rank(7, color),
            beginning_rank < 8,
            promo_rank < 8,
            att == pawn_attack_set(square as int, color),
            block_mask == neighbour_mask(att, color, t as int),
        decreases 64 - t,
    {
        if bb_has(att, t) {
            let pawn_start = new_square(t % 8, beginning_rank);
            let pawn_goal = new_square(t % 8, promo_rank);
            block_mask = block_mask | between(pawn_start, pawn_goal);
        }
        t = t + 1;
    }
    block_mask
}

/// Whether the pawn on `square` is passed: no enemy pawn ahead of it on its
/// file or the files beside it, and none of its own ahead of it on its file.
pub fn pawn_is_passed(board: &cozy_chess::Board, color: Color, square: u8) -> (r: bool)
    requires
        square < 64,
    ensures
        r == is_passed(*board, color, square as int),
{
    let all_pawns = pieces(board, Piece::Pawn);
    let our = all_pawns & colors(board, color);
    let enemy = all_pawns & colors(board, color.other());
    let block_mask = passed_block_mask(square, color);
    let goal = promo_goal(square, color);
    (enemy & block_mask) == 0 && (our & between(square, goal)) == 0
}

/// The value of one term for the piece or pawn on `square`.
fn term_at(board: &cozy_chess::Board, t: Term, color: Color, phase: i32, square: u8) -> (r: i32)
    requires
        square < 64,
        phase_in_range(phase as int),
    ensures
        r == term_value(*board, t, color, phase as int, square as int),
        -term_bound() <= r <= term_bound(),
{
    match t {
        Term::Material(p) => material_value(p, color, square, phase),
        Term::Mobility(p) => {
            let moves = feasible_moves(board, p, color, square);
            mobility_weight(p, bb_len(moves) as usize, phase)
        },
        Term::Passed => {
            if pawn_is_passed(board, color, square) {
                taper(PASSED_PAWN_BONUS, phase)
            } else {
                0
            }
        },
        Term::Island => {
            let all_pawns = pieces(board, Piece::Pawn);
            let our = all_pawns & colors(board, color);
            let goal = promo_goal(square, color);
            if (our & between(square, goal)) != 0 {
                taper(PAWN_ISLAND_PENALTY, phase)
            } else {
                0
            }
        },
        Term::Isolated => {
            let all_pawns = pieces(board, Piece::Pawn);
            let our = all_pawns & colors(board, color);
            let block_mask = neighbour_block_mask(square, color);
            if (our & block_mask) == 0 {
                taper(PAWN_ISOLATION_PENALTY, phase)
            } else {
                0
            }
        },
        Term::Connected => {
            let our = pieces(board, Piece::Pawn) & colors(board, color);
            let att = pawn_attacks(square, color.other());
            proof {
                lemma_count_and_le(att, our, 64);
            }
            let supporters = bb_len(att & our) as i32;
            let weight = taper(CONNECTED_PASSED_PAWN, phase);
            proof {
                reveal(connected_value);
                assert(-120000 <= weight * supporters <= 120000) by (nonlinear_arith)
                    requires
                        0 <= supporters <= 2,
                        -60000 <= weight <= 60000,
                ;
            }
            weight * supporters
        },
        Term::RookFile => {
            let all_pawns = pieces(board, Piece::Pawn);
            let our = all_pawns & colors(board, color);
            let rook_file = file_bitboard(square % 8);
            if (all_pawns & rook_file) == 0 {
                taper(ROOK_OPEN_FILE_BONUS, phase)
            } else if (our & rook_file) == 0 {
                taper(ROOK_SEMI_FILE_BONUS, phase)
            } else {
                0
            }
        },
    }
}

/// The sum of a term over the squares of `bb`, lowest square first.
fn sum_term(board: &cozy_chess::Board, bb: u64, t: Term, color: Color, phase: i32) -> (r: i32)
    requires
        phase_in_range(phase as int),
    ensures
        r == term_sum(*board, bb, t, color, phase as int),
        -64 * term_bound() <= r <= 64 * term_bound(),
{
    let mut sum: i32 = 0;
    let mut s: u8 = 0;
    while s < 64
        invariant
            s <= 64,
            phase_in_range(phase as int),
            sum == sum_squares(bb, term_f(*board, t, color, phase as int), s as int),
            -(s as int) * term_bound() <= sum <= (s as int) * term_bound(),
        decreases 64 - s,
    {
        if bb_has(bb, s) {
            let v = term_at(board, t, color, phase, s);
            sum = sum + v;
        }
        s = s + 1;
    }
    sum
}

/// Material and piece-square values, or mobility, of all of a side's pieces.
fn sum_pieces(board: &cozy_chess::Board, mobility: bool, color: Color, phase: i32) -> (r: i32)
    requires
        phase_in_range(phase as int),
    ensures
        r == pieces_sum(*board, mobility, color, phase as int, 6),
        -6 * 64 * term_bound() <= r <= 6 * 64 * term_bound(),
{
    let mut sum: i32 = 0;
    let mut pi: usize = 0;
    while pi < 6
        invariant
            pi <= 6,
            phase_in_range(phase as int),
            sum == pieces_sum(*board, mobility, color, phase as int, pi as int),
            -(pi as int) * 64 * term_bound() <= sum <= (pi as int) * 64 * term_bound(),
        decreases 6 - pi,
    {
        let piece = Piece::from_index(pi);
        let bb = colors(board, color) & pieces(board, piece);
        let t = if mobility {
            Term::Mobility(piece)
        } else {
            Term::Material(piece)
        };
        let part = sum_term(board, bb, t, color, phase);
        sum = sum + part;
        pi = pi + 1;
    }
    sum
}

fn virtual_mobility(board: &cozy_chess::Board, color: Color, phase: i32) -> (r: i32)
    requires
        board_valid(*board),
        phase_in_range(phase as int),
    ensures
        r == virtual_mobility_spec(*board, color, phase as int),
        -60000 <= r <= 60000,
{
    let occ = occupied(board);
    let my_king = king(board, color);
    let bm = bishop_moves(my_king, occ);
    let rm = rook_moves(my_king, occ);
    let ours = colors(board, color);
    let virtual_queen_moves = (bm | rm) & !ours;
    proof {
        lemma_count_or_le(bm, rm, 64);
        lemma_count_and_le(bm | rm, !ours, 64);
    }
    let mobility = bb_len(virtual_queen_moves);
    taper(VIRTUAL_MOBILITY[mobility as usize], phase)
}

fn bishop_pair(board: &cozy_chess::Board, color: Color, phase: i32) -> (r: i32)
    requires
        phase_in_range(phase as int),
    ensures
        r == bishop_pair_spec(*board, color, phase as int),
        -60000 <= r <= 60000,
{
    if bb_len(pieces(board, Piece::Bishop) & colors(board, color)) >= 2 {
        taper(BISHOP_PAIR_BONUS, phase)
    } else {
        0
    }
}

fn king_on_risky_file(board: &cozy_chess::Board, color: Color, phase: i32) -> (r: i32)
    requires
        board_valid(*board),
        phase_in_range(phase as int),
    ensures
        r == king_file_spec(*board, color, phase as int),
        -60000 <= r <= 60000,
{
    let pawns = pieces(board, Piece::Pawn);
    let our_pawns = colors(board, color) & pawns;
    let king_file = file_bitboard(king(board, color) % 8);
    if (pawns & king_file) == 0 {
        taper(KING_ON_OPEN_FILE, phase)
    } else if (our_pawns & king_file) == 0 {
        taper(KING_ON_SEMI_OPEN_FILE, phase)
    } else {
        0
    }
}

/// The evaluation of one side.
fn side_evaluation(board: &cozy_chess::Board, color: Color, phase: i32) -> (r: i32)
    requires
        board_valid(*board),
        phase_in_range(phase as int),
    ensures
        r == side_eval(*board, color, phase as int),
        -200_000_000 <= r <= 200_000_000,
{
    reveal(side_eval);
    let material = sum_pieces(board, false, color, phase);
    let mobility = sum_pieces(board, true, color, phase);
    let all_pawns = pieces(board, Piece::Pawn);
    let our_pawns = all_pawns & colors(board, color);
    let our_rooks = colors(board, color) & pieces(board, Piece::Rook);
    let mut sum = material;
    sum = sum + mobility;
    sum = sum + virtual_mobility(board, color, phase);
    sum = sum + bishop_pair(board, color, phase);
    sum = sum + sum_term(board, our_pawns, Term::Connected, color, phase);
    sum = sum + king_on_risky_file(board, color, phase);
    sum = sum + sum_term(board, our_pawns, Term::Passed, color, phase);
    sum = sum + sum_term(board, our_pawns, Term::Island, color, phase);
    sum = sum + sum_term(board, our_pawns, Term::Isolated, color, phase);
    sum = sum + sum_term(board, our_rooks, Term::RookFile, color, phase);
    sum
}

/// The static evaluation of the board, from the side to move's point of view.
pub fn evaluate(board: &cozy_chess::Board) -> (r: i32)
    requires
        board_valid(*board),
    ensures
        r == evaluate_spec(*board),
{
    let phase = calculate_phase(board);
    let white_eval = side_evaluation(board, Color::White, phase);
    let black_eval = side_evaluation(board, Color::Black, phase);

    let mut eval: i32 = 0;
    eval = eval + white_eval;
    eval = eval - black_eval;

    if side_to_move(board) == Color::White {
        eval = eval + taper(TEMPO, phase);
    } else {
        eval = eval - taper(TEMPO, phase);
    }

    if oracle_lookup(board) {
        eval = eval / ORACLE_SCALE;
    }

    if side_to_move(board) == Color::White {
        eval
    } else {
        -eval
    }
}


/// Tapering keeps a strict order of non-negative weight pairs.
proof fn lemma_tapered_strict(mg1: int, eg1: int, mg2: int, eg2: int, ph: int)
    requires
        0 <= mg1 < mg2,
        0 <= eg1 < eg2,
        0 <= ph <= 256,
    ensures
        tapered(mg1, eg1, ph) < tapered(mg2, eg2, ph),
{
    let n1 = mg1 * (256 - ph) + eg1 * ph;
    let n2 = mg2 * (256 - ph) + eg2 * ph;
    assert(0 <= n1 && n1 + 256 <= n2) by (nonlinear_arith)
        requires
            n1 == mg1 * (256 - ph) + eg1 * ph,
            n2 == mg2 * (256 - ph) + eg2 * ph,
            0 <= mg1 < mg2,
            0 <= eg1 < eg2,
            0 <= ph <= 256,
    ;
    assert(n1 / 256 < n2 / 256) by (nonlinear_arith)
        requires
            0 <= n1,
            n1 + 256 <= n2,
    ;
}

/// The material weights: each piece counts its own pair of weights, pawn,
/// knight, bishop, rook and queen at 72/97, 327/323, 346/347, 519/518 and
/// 1029/1028 (middle game / endgame), the king nothing; at every phase a
/// pawn is worth less than a knight, a knight less than a bishop, a bishop
/// less than a rook and a rook less than a queen.
pub proof fn lemma_material_weights(ph: int)
    requires
        0 <= ph <= 256,
    ensures
        weight_score(Piece::Pawn, 0) == 72 && weight_score(Piece::Pawn, 256) == 97,
        weight_score(Piece::Knight, 0) == 327 && weight_score(Piece::Knight, 256) == 323,
        weight_score(Piece::Bishop, 0) == 346 && weight_score(Piece::Bishop, 256) == 347,
        weight_score(Piece::Rook, 0) == 519 && weight_score(Piece::Rook, 256) == 518,
        weight_score(Piece::Queen, 0) == 1029 && weight_score(Piece::Queen, 256) == 1028,
        weight_score(Piece::King, ph) == 0,
        0 < weight_score(Piece::Pawn, ph) < weight_score(Piece::Knight, ph),
        weight_score(Piece::Knight, ph) < weight_score(Piece::Bishop, ph),
        weight_score(Piece::Bishop, ph) < weight_score(Piece::Rook, ph),
        weight_score(Piece::Rook, ph) < weight_score(Piece::Queen, ph),
{
    lemma_tapered_endpoints(72, 97);
    lemma_tapered_endpoints(327, 323);
    lemma_tapered_endpoints(346, 347);
    lemma_tapered_endpoints(519, 518);
    lemma_tapered_endpoints(1029, 1028);
    lemma_tapered_strict(0, 0, 72, 97, ph);
    lemma_tapered_constant(0, ph);
    lemma_tapered_strict(72, 97, 327, 323, ph);
    lemma_tapered_strict(327, 323, 346, 347, ph);
    lemma_tapered_strict(346, 347, 519, 518, ph);
    lemma_tapered_strict(519, 518, 1029, 1028, ph);
}

} // verus!
