//! Why the hashes that `BoardWrapper::play_unchecked` updates move by move are
//! the hashes of the board after the move, and on which moves they are not.

use vstd::prelude::*;
use crate::board::{
    board_colors, board_en_passant, board_legal_moves, board_pieces, board_side, board_valid,
    colored, colors_after, ep_square, is_castle, lemma_piece_on_has, occupied_spec, piece_on_from,
    piece_on_spec, pieces_after, toggle,
};
use crate::chess::{
    ChessMove, Color, Piece, count_upto, has, lemma_has_and, lemma_has_or, lemma_no_bits_empty,
    make_square, popcount, relative_rank, square_bb, square_file,
};
use crate::movegen::boardwrapper::{
    BoardWrapper, capture_hashes, lemma_count_has, material_hash_spec, material_upto, non_pawn_hash_spec,
    non_pawn_upto, pawn_hash_spec, play_hashes, xor_keys,
};
use crate::movegen::movegen::SortedMove;
use crate::movegen::movesorter::MoveType;
use crate::movegen::hash_keys::{BOARD_BY_PIECE_KEYS, COUNT_BY_SIDE_KEYS};

verus! {

pub proof fn lemma_has_xor(a: u64, b: u64, s: int)
    requires
        0 <= s < 64,
    ensures
        has(a ^ b, s) == (has(a, s) != has(b, s)),
{
    let t = s as u64;
    assert((((a ^ b) >> t) & 1 == 1) == (((a >> t) & 1 == 1) != ((b >> t) & 1 == 1))) by (bit_vector)
        requires
            t < 64,
    ;
}

pub proof fn lemma_has_square(t: int, s: int)
    requires
        0 <= t < 64,
        0 <= s < 64,
    ensures
        has(square_bb(t), s) == (s == t),
{
    let a = t as u64;
    let b = s as u64;
    assert((((1u64 << a) >> b) & 1 == 1) == (a == b)) by (bit_vector)
        requires
            a < 64,
            b < 64,
    ;
}

/// Two bitboards with the same squares are equal.
pub proof fn lemma_bits_eq(x: u64, y: u64)
    requires
        forall|s: int| 0 <= s < 64 ==> #[trigger] has(x, s) == has(y, s),
    ensures
        x == y,
{
    assert forall|s: int| 0 <= s < 64 implies !#[trigger] has(x ^ y, s) by {
        lemma_has_xor(x, y, s);
        assert(has(x, s) == has(y, s));
    }
    lemma_no_bits_empty(x ^ y);
    assert((x ^ y) == 0u64 ==> x == y) by (bit_vector);
}

/// The algebra of `^`: commutative, associative, zero the unit, every value
/// its own inverse.
pub proof fn lemma_xor_algebra()
    ensures
        forall|a: u64, b: u64| #[trigger] (a ^ b) == b ^ a,
        forall|a: u64, b: u64, c: u64| #[trigger] ((a ^ b) ^ c) == a ^ (b ^ c),
        forall|a: u64| #[trigger] (a ^ 0u64) == a,
        forall|a: u64| #[trigger] (a ^ a) == 0u64,
{
    assert forall|a: u64, b: u64| #[trigger] (a ^ b) == b ^ a by {
        assert((a ^ b) == b ^ a) by (bit_vector);
    }
    assert forall|a: u64, b: u64, c: u64| #[trigger] ((a ^ b) ^ c) == a ^ (b ^ c) by {
        assert(((a ^ b) ^ c) == a ^ (b ^ c)) by (bit_vector);
    }
    assert forall|a: u64| #[trigger] (a ^ 0u64) == a by {
        assert((a ^ 0u64) == a) by (bit_vector);
    }
    assert forall|a: u64| #[trigger] (a ^ a) == 0u64 by {
        assert((a ^ a) == 0u64) by (bit_vector);
    }
}

/// The `^` facts about three given words.
pub proof fn lemma_xor3(a: u64, b: u64, c: u64)
    ensures
        (a ^ b) ^ c == a ^ (b ^ c),
        a ^ b == b ^ a,
        a ^ 0u64 == a,
        0u64 ^ a == a,
        a ^ a == 0u64,
{
    assert(((a ^ b) ^ c == a ^ (b ^ c)) && (a ^ b == b ^ a) && (a ^ 0u64 == a) && (0u64 ^ a == a)
        && (a ^ a == 0u64)) by (bit_vector);
}

/// Folding keys from `h` is folding them from zero and xoring `h` in.
pub proof fn lemma_xor_keys_shift(h: u64, bb: u64, p: int, n: int)
    requires
        0 <= n <= 64,
    ensures
        xor_keys(h, bb, p, n) == h ^ xor_keys(0, bb, p, n),
    decreases n,
{
    lemma_xor_algebra();
    if n > 0 {
        lemma_xor_keys_shift(h, bb, p, n - 1);
    }
}

/// The keys of the squares of `a ^ m` are those of `a` xored with those of `m`.
pub proof fn lemma_xor_keys_split(a: u64, m: u64, p: int, n: int)
    requires
        0 <= n <= 64,
    ensures
        xor_keys(0, a ^ m, p, n) == xor_keys(0, a, p, n) ^ xor_keys(0, m, p, n),
    decreases n,
{
    lemma_xor_algebra();
    if n > 0 {
        lemma_xor_keys_split(a, m, p, n - 1);
        lemma_has_xor(a, m, n - 1);
        let x = xor_keys(0, a, p, n - 1);
        let y = xor_keys(0, m, p, n - 1);
        let k = BOARD_BY_PIECE_KEYS[p][n - 1];
        assert((x ^ k) ^ (y ^ k) == x ^ y) by {
            assert((x ^ k) ^ (y ^ k) == x ^ (k ^ (y ^ k)));
            assert(k ^ (y ^ k) == (y ^ k) ^ k);
            assert((y ^ k) ^ k == y ^ (k ^ k));
        }
        assert((x ^ k) ^ y == (x ^ y) ^ k) by {
            assert((x ^ k) ^ y == x ^ (k ^ y));
            assert(k ^ y == y ^ k);
            assert((x ^ y) ^ k == x ^ (y ^ k));
        }
    }
}

/// The keys of one square.
pub proof fn lemma_xor_keys_single(t: int, p: int, n: int)
    requires
        0 <= t < 64,
        0 <= n <= 64,
    ensures
        xor_keys(0, square_bb(t), p, n) == if t < n {
            BOARD_BY_PIECE_KEYS[p][t]
        } else {
            0u64
        },
    decreases n,
{
    lemma_xor_algebra();
    if n > 0 {
        lemma_xor_keys_single(t, p, n - 1);
        lemma_has_square(t, n - 1);
        if t == n - 1 {
            assert(0u64 ^ BOARD_BY_PIECE_KEYS[p][t] == BOARD_BY_PIECE_KEYS[p][t]);
        }
    }
}

/// No square, no keys.
pub proof fn lemma_xor_keys_empty(p: int, n: int)
    requires
        0 <= n <= 64,
    ensures
        xor_keys(0, 0, p, n) == 0u64,
    decreases n,
{
    if n > 0 {
        lemma_xor_keys_empty(p, n - 1);
        assert(has(0u64, n - 1) == false) by {
            let t = (n - 1) as u64;
            assert(((0u64 >> t) & 1 == 1) == false) by (bit_vector);
        }
    }
}

/// Flipping one square changes the count by one.
pub proof fn lemma_count_toggle(bb: u64, t: int, n: int)
    requires
        0 <= t < 64,
        0 <= n <= 64,
    ensures
        count_upto(bb ^ square_bb(t), n) == count_upto(bb, n) + if t < n {
            if has(bb, t) {
                -1int
            } else {
                1int
            }
        } else {
            0int
        },
    decreases n,
{
    if n > 0 {
        lemma_count_toggle(bb, t, n - 1);
        lemma_has_xor(bb, square_bb(t), n - 1);
        lemma_has_square(t, n - 1);
    }
}

/// The piece kind that moves.
pub open spec fn moved_kind(b: cozy_chess::Board, mv: ChessMove) -> int {
    piece_on_spec(b, mv.from as int).unwrap().to_int()
}

/// The kind that stands on the target after the move: the promotion piece for
/// a promoting pawn, the moved kind otherwise.
pub open spec fn new_kind(b: cozy_chess::Board, mv: ChessMove) -> int {
    match mv.promotion {
        Some(p) => if moved_kind(b, mv) == 0 {
            p.to_int()
        } else {
            moved_kind(b, mv)
        },
        None => moved_kind(b, mv),
    }
}

/// The move is an en passant capture.
pub open spec fn is_ep_capture(b: cozy_chess::Board, mv: ChessMove) -> bool {
    moved_kind(b, mv) == 0 && mv.promotion is None && ep_square(b) == Some(mv.to as int)
}

/// The square of the pawn taken en passant.
pub open spec fn ep_victim(b: cozy_chess::Board, mv: ChessMove) -> int {
    make_square(square_file(mv.to as int), relative_rank(4, board_side(b)))
}

proof fn lemma_toggle_has(sq: Seq<u64>, i: int, bb: u64, k: int, s: int)
    requires
        0 <= i < sq.len(),
        0 <= k < sq.len(),
        0 <= s < 64,
    ensures
        has(toggle(sq, i, bb)[k], s) == (has(sq[k], s) != (k == i && has(bb, s))),
{
    if k == i {
        lemma_has_xor(sq[i], bb, s);
    }
}

proof fn lemma_piece_on_none(pieces: Seq<u64>, sq: int, p: int, k: int)
    requires
        0 <= p <= k < 6,
        piece_on_from(pieces, sq, p) is None,
    ensures
        (has(pieces[k], sq) == false),
    decreases k - p,
{
    if p < k {
        lemma_piece_on_none(pieces, sq, p + 1, k);
    }
}

/// What a legal move on a valid board finds: its piece on the start square of
/// the side to move and nothing else there; on the target either nothing or
/// one enemy piece (castling left out); and, for an en passant capture, one
/// enemy pawn on the square passed.
pub proof fn lemma_move_facts(b: cozy_chess::Board, mv: ChessMove)
    requires
        board_valid(b),
        board_legal_moves(b).contains(mv),
        !is_castle(b, mv),
    ensures
        mv.from < 64,
        mv.to < 64,
        mv.from != mv.to,
        0 <= moved_kind(b, mv) < 6,
        0 <= new_kind(b, mv) < 6,
        mv.promotion matches Some(p) ==> p != Piece::Pawn && p != Piece::King,
        forall|j: int| 0 <= j < 6 ==> has(board_pieces(b)[j], mv.from as int) == (j == moved_kind(b, mv)),
        has(board_colors(b)[board_side(b).to_int()], mv.from as int),
        (has(board_colors(b)[board_side(b).opp().to_int()], mv.from as int) == false),
        (has(board_colors(b)[board_side(b).to_int()], mv.to as int) == false),
        has(board_colors(b)[board_side(b).opp().to_int()], mv.to as int) == piece_on_spec(b, mv.to as int) is Some,
        forall|j: int| 0 <= j < 6 ==> has(board_pieces(b)[j], mv.to as int) == (piece_on_spec(b, mv.to as int) matches Some(v) && v.to_int() == j),
        is_ep_capture(b, mv) ==> {
            let e = ep_victim(b, mv);
            &&& 0 <= e < 64
            &&& e != mv.from as int
            &&& e != mv.to as int
            &&& forall|j: int| 0 <= j < 6 ==> has(board_pieces(b)[j], e) == (j == 0)
            &&& has(board_colors(b)[board_side(b).opp().to_int()], e)
            &&& (has(board_colors(b)[board_side(b).to_int()], e) == false)
        },
{
    let ps = board_pieces(b);
    let cs = board_colors(b);
    let c = board_side(b);
    let k = choose|k: int| 0 <= k < board_legal_moves(b).len() && board_legal_moves(b)[k] == mv;
    assert(board_legal_moves(b)[k] == mv);
    let from = mv.from as int;
    let to = mv.to as int;
    lemma_has_or(cs[0], cs[1], from);
    lemma_has_or(cs[0], cs[1], to);
    assert(has(occupied_spec(b), from));
    assert(piece_on_spec(b, from) is Some);
    lemma_piece_on_has(ps, from, 0);
    let m = moved_kind(b, mv);
    assert(has(ps[m], from));
    assert forall|j: int| 0 <= j < 6 implies has(ps[j], from) == (j == m) by {
        if has(ps[j], from) {
            assert(has(ps[m], from) && has(ps[j], from));
        }
    }
    assert(has(cs[c.to_int()], from));
    if c == Color::White {
        assert((has(cs[1], from) == false));
    } else {
        if has(cs[0], from) {
            assert((has(cs[1], from) == false));
        }
    }
    match piece_on_spec(b, to) {
        Some(v) => {
            lemma_piece_on_has(ps, to, 0);
            assert(has(ps[v.to_int()], to));
            assert(has(occupied_spec(b), to));
            assert forall|j: int| 0 <= j < 6 implies has(ps[j], to) == (v.to_int() == j) by {
                if has(ps[j], to) {
                    assert(has(ps[v.to_int()], to) && has(ps[j], to));
                }
            }
        },
        None => {
            assert forall|j: int| 0 <= j < 6 implies (has(ps[j], to) == false) by {
                lemma_piece_on_none(ps, to, 0, j);
            }
            assert((has(occupied_spec(b), to) == false));
        },
    }
    if is_ep_capture(b, mv) {
        let f = board_en_passant(b).unwrap();
        let e = ep_victim(b, mv);
        let o = c.opp();
        assert(square_file(to) == f as int);
        assert(e == make_square(f as int, relative_rank(3, o)));
        assert(has(colored(b, o, Piece::Pawn), e));
        lemma_has_and(cs[o.to_int()], ps[0], e);
        assert(has(ps[0], e));
        assert forall|j: int| 0 <= j < 6 implies has(ps[j], e) == (j == 0) by {
            if has(ps[j], e) {
                assert(has(ps[0], e) && has(ps[j], e));
            }
        }
        if c == Color::White {
            assert((has(cs[1], e) == false) || (has(cs[0], e) == false));
        } else {
            assert((has(cs[1], e) == false) || (has(cs[0], e) == false));
        }
    }
}

/// Where a piece kind stands after a move (castling left out): not on the
/// start square, on the target exactly for the kind that lands there, not on
/// the square of a pawn taken en passant, and elsewhere as before.
pub proof fn lemma_piece_after(b: cozy_chess::Board, mv: ChessMove, k: int, s: int)
    requires
        board_valid(b),
        board_legal_moves(b).contains(mv),
        !is_castle(b, mv),
        0 <= k < 6,
        0 <= s < 64,
    ensures
        has(pieces_after(b, mv)[k], s) == if s == mv.from as int {
            false
        } else if s == mv.to as int {
            k == new_kind(b, mv)
        } else if is_ep_capture(b, mv) && s == ep_victim(b, mv) {
            false
        } else {
            has(board_pieces(b)[k], s)
        },
{
    lemma_move_facts(b, mv);
    let ps = board_pieces(b);
    let from = mv.from as int;
    let to = mv.to as int;
    let fb = square_bb(from);
    let tb = square_bb(to);
    let m = moved_kind(b, mv);
    lemma_has_square(from, s);
    lemma_has_square(to, s);
    lemma_has_xor(fb, tb, s);
    let p1 = toggle(ps, m, fb ^ tb);
    lemma_toggle_has(ps, m, fb ^ tb, k, s);
    let p2 = match piece_on_spec(b, to) {
        Some(v) => toggle(p1, v.to_int(), tb),
        None => p1,
    };
    match piece_on_spec(b, to) {
        Some(v) => {
            lemma_toggle_has(p1, v.to_int(), tb, k, s);
        },
        None => {},
    }
    if m == 0 {
        match mv.promotion {
            Some(pr) => {
                let p3 = toggle(p2, 0, tb);
                lemma_toggle_has(p2, 0, tb, k, s);
                lemma_toggle_has(p3, pr.to_int(), tb, k, s);
            },
            None => {
                if ep_square(b) == Some(to) {
                    let e = ep_victim(b, mv);
                    lemma_has_square(e, s);
                    lemma_toggle_has(p2, 0, square_bb(e), k, s);
                }
            },
        }
    }
}

/// Where a color stands after a move (castling left out), as for the kinds.
pub proof fn lemma_color_after(b: cozy_chess::Board, mv: ChessMove, x: int, s: int)
    requires
        board_valid(b),
        board_legal_moves(b).contains(mv),
        !is_castle(b, mv),
        0 <= x < 2,
        0 <= s < 64,
    ensures
        has(colors_after(b, mv)[x], s) == if s == mv.from as int {
            false
        } else if s == mv.to as int {
            x == board_side(b).to_int()
        } else if is_ep_capture(b, mv) && s == ep_victim(b, mv) {
            false
        } else {
            has(board_colors(b)[x], s)
        },
{
    lemma_move_facts(b, mv);
    let cs = board_colors(b);
    let c = board_side(b).to_int();
    let o = board_side(b).opp().to_int();
    let from = mv.from as int;
    let to = mv.to as int;
    let fb = square_bb(from);
    let tb = square_bb(to);
    lemma_has_square(from, s);
    lemma_has_square(to, s);
    lemma_has_xor(fb, tb, s);
    let c1 = toggle(cs, c, fb ^ tb);
    lemma_toggle_has(cs, c, fb ^ tb, x, s);
    let c2 = match piece_on_spec(b, to) {
        Some(v) => toggle(c1, o, tb),
        None => c1,
    };
    match piece_on_spec(b, to) {
        Some(v) => {
            lemma_toggle_has(c1, o, tb, x, s);
        },
        None => {},
    }
    if is_ep_capture(b, mv) {
        let e = ep_victim(b, mv);
        lemma_has_square(e, s);
        lemma_toggle_has(c2, o, square_bb(e), x, s);
    }
}

/// The squares on which a move (castling left out) flips where color `x`'s
/// pieces of kind `k` stand: the mover leaves its square and lands on the
/// target (a promoting pawn only leaves, its new piece lands), a piece taken
/// leaves the target, a pawn taken en passant leaves the square passed.
pub open spec fn colored_delta(b: cozy_chess::Board, mv: ChessMove, x: Color, k: int) -> u64 {
    let fb = square_bb(mv.from as int);
    let tb = square_bb(mv.to as int);
    let m = moved_kind(b, mv);
    if x == board_side(b) {
        if k == m {
            if m == 0 && mv.promotion is Some {
                fb
            } else {
                fb ^ tb
            }
        } else if m == 0 && (mv.promotion matches Some(pr) && pr.to_int() == k) {
            tb
        } else {
            0
        }
    } else {
        let cap = match piece_on_spec(b, mv.to as int) {
            Some(v) => if v.to_int() == k {
                tb
            } else {
                0u64
            },
            None => 0u64,
        };
        if k == 0 && is_ep_capture(b, mv) {
            cap ^ square_bb(ep_victim(b, mv))
        } else {
            cap
        }
    }
}

/// After a move (castling left out), a color's pieces of a kind are those
/// before, flipped on the squares of `colored_delta`.
pub proof fn lemma_colored_after(b: cozy_chess::Board, mv: ChessMove, b2: cozy_chess::Board, x: Color, k: int)
    requires
        board_valid(b),
        board_legal_moves(b).contains(mv),
        !is_castle(b, mv),
        board_pieces(b2) == pieces_after(b, mv),
        board_colors(b2) == colors_after(b, mv),
        0 <= k < 6,
    ensures
        colored(b2, x, Piece::of_int(k)) == colored(b, x, Piece::of_int(k)) ^ colored_delta(b, mv, x, k),
{
    lemma_move_facts(b, mv);
    let pk = Piece::of_int(k);
    assert(pk.to_int() == k);
    let before = colored(b, x, pk);
    let after = colored(b2, x, pk);
    let d = colored_delta(b, mv, x, k);
    let from = mv.from as int;
    let to = mv.to as int;
    assert forall|s: int| 0 <= s < 64 implies #[trigger] has(after, s) == has(before ^ d, s) by {
        lemma_piece_after(b, mv, k, s);
        lemma_color_after(b, mv, x.to_int(), s);
        lemma_has_and(board_colors(b2)[x.to_int()], board_pieces(b2)[k], s);
        lemma_has_and(board_colors(b)[x.to_int()], board_pieces(b)[k], s);
        lemma_has_xor(before, d, s);
        lemma_has_square(from, s);
        lemma_has_square(to, s);
        lemma_has_xor(square_bb(from), square_bb(to), s);
        assert(has(0u64, s) == false) by {
            let t = s as u64;
            assert(((0u64 >> t) & 1 == 1) == false) by (bit_vector);
        }
        if is_ep_capture(b, mv) {
            let e = ep_victim(b, mv);
            lemma_has_square(e, s);
            match piece_on_spec(b, to) {
                Some(v) => {
                    if v.to_int() == k {
                        lemma_has_xor(square_bb(to), square_bb(e), s);
                    } else {
                        lemma_has_xor(0u64, square_bb(e), s);
                    }
                },
                None => {
                    lemma_has_xor(0u64, square_bb(e), s);
                },
            }
        }
    }
    lemma_bits_eq(after, before ^ d);
}

/// The keys of the squares of a bitboard, for piece kind `p`.
pub open spec fn keys(bb: u64, p: int) -> u64 {
    xor_keys(0, bb, p, 64)
}

proof fn lemma_keys_facts(a: int, t: int, p: int)
    requires
        0 <= a < 64,
        0 <= t < 64,
    ensures
        keys(0, p) == 0u64,
        keys(square_bb(a), p) == BOARD_BY_PIECE_KEYS[p][a],
        keys(square_bb(a) ^ square_bb(t), p) == BOARD_BY_PIECE_KEYS[p][a] ^ BOARD_BY_PIECE_KEYS[p][t],
{
    lemma_xor_keys_empty(p, 64);
    lemma_xor_keys_single(a, p, 64);
    lemma_xor_keys_single(t, p, 64);
    lemma_xor_keys_split(square_bb(a), square_bb(t), p, 64);
}

/// The pawn hash changes by the keys of the squares where pawns change.
proof fn lemma_pawn_hash_delta(b: cozy_chess::Board, b2: cozy_chess::Board, dw: u64, db: u64)
    requires
        colored(b2, Color::White, Piece::Pawn) == colored(b, Color::White, Piece::Pawn) ^ dw,
        colored(b2, Color::Black, Piece::Pawn) == colored(b, Color::Black, Piece::Pawn) ^ db,
    ensures
        pawn_hash_spec(b2) == (pawn_hash_spec(b) ^ keys(dw, 0)) ^ keys(db, 0),
{
    lemma_xor_algebra();
    let w = colored(b, Color::White, Piece::Pawn);
    let bl = colored(b, Color::Black, Piece::Pawn);
    lemma_xor_keys_shift(xor_keys(0, w, 0, 64), bl, 0, 64);
    lemma_xor_keys_shift(xor_keys(0, w ^ dw, 0, 64), bl ^ db, 0, 64);
    lemma_xor_keys_split(w, dw, 0, 64);
    lemma_xor_keys_split(bl, db, 0, 64);
    let kw = keys(w, 0);
    let kb = keys(bl, 0);
    let x = keys(dw, 0);
    let y = keys(db, 0);
    assert((kw ^ x) ^ (kb ^ y) == ((kw ^ kb) ^ x) ^ y) by {
        assert((kw ^ x) ^ (kb ^ y) == kw ^ (x ^ (kb ^ y)));
        assert(x ^ (kb ^ y) == (x ^ kb) ^ y);
        assert(x ^ kb == kb ^ x);
        assert((kb ^ x) ^ y == kb ^ (x ^ y));
        assert(kw ^ (kb ^ (x ^ y)) == (kw ^ kb) ^ (x ^ y));
        assert(((kw ^ kb) ^ x) ^ y == (kw ^ kb) ^ (x ^ y));
    }
}

/// The non-pawn keys of deltas for the kinds from knight up to `n`.
pub open spec fn np_delta(d: spec_fn(int) -> u64, n: int) -> u64
    decreases n,
{
    if n <= 0 {
        0
    } else {
        np_delta(d, n - 1) ^ keys(d(n), n)
    }
}

/// The non-pawn hash of a color changes by the keys of the squares where its
/// pieces change.
proof fn lemma_non_pawn_delta(b: cozy_chess::Board, b2: cozy_chess::Board, x: Color, d: spec_fn(int) -> u64, n: int)
    requires
        0 <= n <= 5,
        forall|k: int|
            1 <= k <= 5 ==> colored(b2, x, Piece::of_int(k)) == colored(b, x, Piece::of_int(k)) ^ #[trigger] d(k),
    ensures
        non_pawn_upto(b2, x, n) == non_pawn_upto(b, x, n) ^ np_delta(d, n),
    decreases n,
{
    lemma_xor_algebra();
    if n > 0 {
        lemma_non_pawn_delta(b, b2, x, d, n - 1);
        let a = non_pawn_upto(b, x, n - 1);
        let da = np_delta(d, n - 1);
        let cb = colored(b, x, Piece::of_int(n));
        assert(colored(b2, x, Piece::of_int(n)) == cb ^ d(n));
        lemma_xor_keys_shift(a ^ da, cb ^ d(n), n, 64);
        lemma_xor_keys_shift(a, cb, n, 64);
        lemma_xor_keys_split(cb, d(n), n, 64);
        let kc = keys(cb, n);
        let kd = keys(d(n), n);
        assert((a ^ da) ^ (kc ^ kd) == (a ^ kc) ^ (da ^ kd)) by {
            assert((a ^ da) ^ (kc ^ kd) == a ^ (da ^ (kc ^ kd)));
            assert(da ^ (kc ^ kd) == (da ^ kc) ^ kd);
            assert(da ^ kc == kc ^ da);
            assert((kc ^ da) ^ kd == kc ^ (da ^ kd));
            assert(a ^ (kc ^ (da ^ kd)) == (a ^ kc) ^ (da ^ kd));
        }
    }
}

/// The count keys that change for the kinds from pawn below `n`.
pub open spec fn mat_delta(b: cozy_chess::Board, b2: cozy_chess::Board, x: Color, n: int) -> u64
    decreases n,
{
    if n <= 0 {
        0
    } else {
        mat_delta(b, b2, x, n - 1) ^ (COUNT_BY_SIDE_KEYS[x.to_int()][n - 1][popcount(
            colored(b2, x, Piece::of_int(n - 1)),
        )] ^ COUNT_BY_SIDE_KEYS[x.to_int()][n - 1][popcount(colored(b, x, Piece::of_int(n - 1)))])
    }
}

proof fn lemma_material_delta(h: u64, b: cozy_chess::Board, b2: cozy_chess::Board, x: Color, n: int)
    requires
        0 <= n <= 5,
    ensures
        material_upto(h, b2, x, n) == material_upto(h, b, x, n) ^ mat_delta(b, b2, x, n),
    decreases n,
{
    lemma_xor_algebra();
    if n > 0 {
        lemma_material_delta(h, b, b2, x, n - 1);
        let a = material_upto(h, b, x, n - 1);
        let da = mat_delta(b, b2, x, n - 1);
        let k2 = COUNT_BY_SIDE_KEYS[x.to_int()][n - 1][popcount(colored(b2, x, Piece::of_int(n - 1)))];
        let k1 = COUNT_BY_SIDE_KEYS[x.to_int()][n - 1][popcount(colored(b, x, Piece::of_int(n - 1)))];
        assert((a ^ da) ^ k2 == (a ^ k1) ^ (da ^ (k2 ^ k1))) by {
            assert((a ^ k1) ^ (da ^ (k2 ^ k1)) == a ^ (k1 ^ (da ^ (k2 ^ k1))));
            assert(k1 ^ (da ^ (k2 ^ k1)) == (da ^ (k2 ^ k1)) ^ k1);
            assert((da ^ (k2 ^ k1)) ^ k1 == da ^ ((k2 ^ k1) ^ k1));
            assert((k2 ^ k1) ^ k1 == k2 ^ (k1 ^ k1));
            assert(k2 ^ 0u64 == k2);
            assert(a ^ (da ^ k2) == (a ^ da) ^ k2);
        }
    }
}

proof fn lemma_material_shift(h: u64, b: cozy_chess::Board, x: Color, n: int)
    requires
        0 <= n <= 5,
    ensures
        material_upto(h, b, x, n) == h ^ material_upto(0, b, x, n),
    decreases n,
{
    lemma_xor_algebra();
    if n > 0 {
        lemma_material_shift(h, b, x, n - 1);
    }
}

/// The moves whose hashes `BoardWrapper::play_unchecked` keeps right: not
/// castling, taking no pawn (a pawn taken by a normal capture keeps its key in
/// the pawn hash), a pawn move onto the en passant file only as the en passant
/// capture itself (any other also takes the passed pawn's key off), and a
/// capture marked loud.
pub open spec fn hashes_follow(b: cozy_chess::Board, sm: SortedMove) -> bool {
    let mv = sm.mv;
    let m = moved_kind(b, mv);
    let to = mv.to as int;
    &&& !is_castle(b, mv)
    &&& piece_on_spec(b, to) != Some(Piece::Pawn)
    &&& (m == 0 && board_en_passant(b) is Some && square_file(to) == board_en_passant(b).unwrap() as int)
        ==> ep_square(b) == Some(to) && mv.promotion is None
    &&& piece_on_spec(b, to) is Some ==> sm.movetype == MoveType::Loud
}

/// `hashes_follow` with the two facts that every legal move of a valid board
/// has besides: it takes no king, and a king that does not castle moves at
/// most one file.
spec fn follows_all(b: cozy_chess::Board, sm: SortedMove) -> bool {
    let mv = sm.mv;
    let df = square_file(mv.from as int) - square_file(mv.to as int);
    &&& hashes_follow(b, sm)
    &&& piece_on_spec(b, mv.to as int) != Some(Piece::King)
    &&& moved_kind(b, mv) == 5 ==> df != 2 && df != -2
}

proof fn lemma_pawn_part(w: BoardWrapper, sm: SortedMove, b2: cozy_chess::Board)
    requires
        w.hashes_match(),
        board_valid(w.board),
        board_legal_moves(w.board).contains(sm.mv),
        follows_all(w.board, sm),
        board_pieces(b2) == pieces_after(w.board, sm.mv),
        board_colors(b2) == colors_after(w.board, sm.mv),
    ensures
        play_hashes(w, sm).0 == pawn_hash_spec(b2),
{
    let b = w.board;
    let mv = sm.mv;
    lemma_move_facts(b, mv);
    let c = board_side(b);
    let o = c.opp();
    let m = moved_kind(b, mv);
    let from = mv.from as int;
    let to = mv.to as int;
    lemma_colored_after(b, mv, b2, Color::White, 0);
    lemma_colored_after(b, mv, b2, Color::Black, 0);
    let dw = colored_delta(b, mv, Color::White, 0);
    let db = colored_delta(b, mv, Color::Black, 0);
    lemma_pawn_hash_delta(b, b2, dw, db);
    let ph = w.pawn_hash;
    let dc = colored_delta(b, mv, c, 0);
    let dox = colored_delta(b, mv, o, 0);
    let a = keys(dc, 0);
    let v = keys(dox, 0);
    assert(pawn_hash_spec(b2) == (ph ^ a) ^ v) by {
        if c == Color::Black {
            lemma_xor3(ph, v, a);
            lemma_xor3(v, a, 0);
            lemma_xor3(ph, a, v);
        }
    }
    lemma_keys_facts(from, to, 0);
    assert(piece_on_spec(b, from) == Some(Piece::of_int(m)));
    let k0 = BOARD_BY_PIECE_KEYS[0][from];
    let k1 = BOARD_BY_PIECE_KEYS[0][to];
    if m == 0 {
        let e = ep_victim(b, mv);
        let p2 = match mv.promotion {
            Some(pr) => ph ^ k0,
            None => (ph ^ k0) ^ k1,
        };
        match mv.promotion {
            Some(pr) => {
                assert(dc == square_bb(from));
                assert(a == k0);
            },
            None => {
                assert(dc == square_bb(from) ^ square_bb(to));
                assert(a == k0 ^ k1);
                lemma_xor3(ph, k0, k1);
            },
        }
        assert(p2 == ph ^ a);
        if is_ep_capture(b, mv) {
            lemma_keys_facts(e, to, 0);
            lemma_xor3(square_bb(e), 0, 0);
            assert(dox == square_bb(e));
            assert(v == BOARD_BY_PIECE_KEYS[0][e]);
            assert(e == make_square(board_en_passant(b).unwrap() as int, relative_rank(3, o)));
            assert(play_hashes(w, sm).0 == p2 ^ BOARD_BY_PIECE_KEYS[0][e]);
        } else {
            assert(dox == 0u64);
            assert(v == 0u64);
            lemma_xor3(p2, 0, 0);
            assert(play_hashes(w, sm).0 == p2);
        }
    } else {
        assert(dc == 0u64);
        assert(dox == 0u64);
        lemma_xor3(ph, 0, 0);
        lemma_xor3(ph ^ 0u64, 0, 0);
        assert(play_hashes(w, sm).0 == ph);
    }
}

proof fn lemma_np_delta_single(d: spec_fn(int) -> u64, j: int, n: int)
    requires
        0 <= n <= 5,
        1 <= j <= 5,
        forall|k: int| 1 <= k <= 5 && k != j ==> #[trigger] d(k) == 0u64,
    ensures
        np_delta(d, n) == if j <= n {
            keys(d(j), j)
        } else {
            0u64
        },
    decreases n,
{
    if n > 0 {
        lemma_np_delta_single(d, j, n - 1);
        let prev = np_delta(d, n - 1);
        lemma_xor3(prev, 0, 0);
        lemma_xor3(keys(d(j), j), 0, 0);
        if n != j {
            assert(d(n) == 0u64);
            lemma_xor_keys_empty(n, 64);
        }
    }
}

proof fn lemma_non_pawn_part(w: BoardWrapper, sm: SortedMove, b2: cozy_chess::Board)
    requires
        w.hashes_match(),
        board_valid(w.board),
        board_legal_moves(w.board).contains(sm.mv),
        follows_all(w.board, sm),
        board_pieces(b2) == pieces_after(w.board, sm.mv),
        board_colors(b2) == colors_after(w.board, sm.mv),
    ensures
        play_hashes(w, sm).1 == non_pawn_hash_spec(b2),
{
    let b = w.board;
    let mv = sm.mv;
    lemma_move_facts(b, mv);
    let c = board_side(b);
    let o = c.opp();
    let ci = c.to_int();
    let oi = o.to_int();
    let m = moved_kind(b, mv);
    let from = mv.from as int;
    let to = mv.to as int;
    let dcf = |k: int| colored_delta(b, mv, c, k);
    let dof = |k: int| colored_delta(b, mv, o, k);
    assert forall|k: int| 1 <= k <= 5 implies colored(b2, c, Piece::of_int(k)) == colored(b, c, Piece::of_int(k)) ^ #[trigger] dcf(k) by {
        lemma_colored_after(b, mv, b2, c, k);
    }
    assert forall|k: int| 1 <= k <= 5 implies colored(b2, o, Piece::of_int(k)) == colored(b, o, Piece::of_int(k)) ^ #[trigger] dof(k) by {
        lemma_colored_after(b, mv, b2, o, k);
    }
    lemma_non_pawn_delta(b, b2, c, dcf, 5);
    lemma_non_pawn_delta(b, b2, o, dof, 5);
    let np = w.non_pawn_hash@;
    assert(np[ci] == non_pawn_upto(b, c, 5));
    assert(np[oi] == non_pawn_upto(b, o, 5));
    // The side to move: the moving piece, or the promotion piece.
    let dc = np_delta(dcf, 5);
    if m == 0 {
        match mv.promotion {
            Some(pr) => {
                let j = pr.to_int();
                assert forall|k: int| 1 <= k <= 5 && k != j implies #[trigger] dcf(k) == 0u64 by {}
                lemma_np_delta_single(dcf, j, 5);
                lemma_keys_facts(to, to, j);
                assert(dc == BOARD_BY_PIECE_KEYS[j][to]);
            },
            None => {
                assert forall|k: int| 1 <= k <= 5 && k != 1 implies #[trigger] dcf(k) == 0u64 by {}
                lemma_np_delta_single(dcf, 1, 5);
                lemma_xor_keys_empty(1, 64);
                assert(dc == 0u64);
            },
        }
    } else {
        assert forall|k: int| 1 <= k <= 5 && k != m implies #[trigger] dcf(k) == 0u64 by {}
        lemma_np_delta_single(dcf, m, 5);
        lemma_keys_facts(from, to, m);
        assert(dc == BOARD_BY_PIECE_KEYS[m][from] ^ BOARD_BY_PIECE_KEYS[m][to]);
    }
    // The other side: the piece taken.
    let dox = np_delta(dof, 5);
    match piece_on_spec(b, to) {
        Some(v) => {
            let j = v.to_int();
            assert(1 <= j <= 4);
            assert forall|k: int| 1 <= k <= 5 && k != j implies #[trigger] dof(k) == 0u64 by {}
            lemma_np_delta_single(dof, j, 5);
            lemma_keys_facts(to, to, j);
            assert(dox == BOARD_BY_PIECE_KEYS[j][to]);
        },
        None => {
            assert forall|k: int| 1 <= k <= 5 && k != 1 implies #[trigger] dof(k) == 0u64 by {}
            lemma_np_delta_single(dof, 1, 5);
            lemma_xor_keys_empty(1, 64);
            assert(dox == 0u64);
        },
    }
    let np1 = capture_hashes(w, sm).1;
    assert(np1 == match piece_on_spec(b, to) {
        Some(v) => np.update(oi, np[oi] ^ BOARD_BY_PIECE_KEYS[v.to_int()][to]),
        None => np,
    });
    assert(np1[oi] == np[oi] ^ dox) by {
        lemma_xor3(np[oi], 0, 0);
    }
    assert(np1[ci] == np[ci]);
    assert(piece_on_spec(b, from) == Some(Piece::of_int(m)));
    let res = play_hashes(w, sm).1;
    if m == 0 {
        match mv.promotion {
            Some(pr) => {
                assert(res == np1.update(ci, np1[ci] ^ BOARD_BY_PIECE_KEYS[pr.to_int()][to]));
            },
            None => {
                assert(res == np1);
                lemma_xor3(np1[ci], 0, 0);
            },
        }
    } else {
        let kf = BOARD_BY_PIECE_KEYS[m][from];
        let kt = BOARD_BY_PIECE_KEYS[m][to];
        assert(res == np1.update(ci, np1[ci] ^ kf ^ kt));
        lemma_xor3(np1[ci], kf, kt);
    }
    assert(res[ci] == non_pawn_upto(b2, c, 5));
    assert(res[oi] == non_pawn_upto(b2, o, 5));
    assert(res =~= non_pawn_hash_spec(b2)) by {
        if c == Color::White {
            assert(res[0] == non_pawn_upto(b2, Color::White, 5));
            assert(res[1] == non_pawn_upto(b2, Color::Black, 5));
        } else {
            assert(res[1] == non_pawn_upto(b2, Color::Black, 5));
            assert(res[0] == non_pawn_upto(b2, Color::White, 5));
        }
    }
}

/// The change of the count key of kind `j`.
pub open spec fn count_term(b: cozy_chess::Board, b2: cozy_chess::Board, x: Color, j: int) -> u64 {
    COUNT_BY_SIDE_KEYS[x.to_int()][j][popcount(colored(b2, x, Piece::of_int(j)))]
        ^ COUNT_BY_SIDE_KEYS[x.to_int()][j][popcount(colored(b, x, Piece::of_int(j)))]
}

proof fn lemma_mat_delta_two(b: cozy_chess::Board, b2: cozy_chess::Board, x: Color, j1: int, j2: int, n: int)
    requires
        0 <= n <= 5,
        0 <= j1 < j2,
        forall|k: int|
            0 <= k < 5 && k != j1 && k != j2 ==> #[trigger] popcount(colored(b2, x, Piece::of_int(k)))
                == popcount(colored(b, x, Piece::of_int(k))),
    ensures
        mat_delta(b, b2, x, n) == (if j1 < n {
            count_term(b, b2, x, j1)
        } else {
            0u64
        }) ^ (if j2 < n {
            count_term(b, b2, x, j2)
        } else {
            0u64
        }),
    decreases n,
{
    lemma_xor3(0, 0, 0);
    if n > 0 {
        lemma_mat_delta_two(b, b2, x, j1, j2, n - 1);
        let t1 = if j1 < n - 1 {
            count_term(b, b2, x, j1)
        } else {
            0u64
        };
        let t2 = if j2 < n - 1 {
            count_term(b, b2, x, j2)
        } else {
            0u64
        };
        let t = count_term(b, b2, x, n - 1);
        assert(mat_delta(b, b2, x, n) == (t1 ^ t2) ^ t);
        lemma_xor3(t1, t2, t);
        lemma_xor3(t2, t, 0);
        lemma_xor3(t1, t, t2);
        lemma_xor3(t, 0, 0);
        lemma_xor3(t1, 0, 0);
        lemma_xor3(t2, 0, 0);
        if n - 1 != j1 && n - 1 != j2 {
            let a = COUNT_BY_SIDE_KEYS[x.to_int()][n - 1][popcount(colored(b, x, Piece::of_int(n - 1)))];
            lemma_xor3(a, 0, 0);
            assert(t == 0u64);
            lemma_xor3(t1 ^ t2, 0, 0);
        }
    }
}

proof fn lemma_pc_pair(bb: u64, f: int, t: int)
    requires
        0 <= f < 64,
        0 <= t < 64,
        f != t,
        has(bb, f),
        (has(bb, t) == false),
    ensures
        popcount(bb ^ (square_bb(f) ^ square_bb(t))) == popcount(bb),
{
    lemma_xor3(bb, square_bb(f), square_bb(t));
    lemma_count_toggle(bb, f, 64);
    lemma_has_xor(bb, square_bb(f), t);
    lemma_has_square(f, t);
    lemma_count_toggle(bb ^ square_bb(f), t, 64);
}

/// How many pieces of a kind each side has after the move.
proof fn lemma_counts_after(w: BoardWrapper, sm: SortedMove, b2: cozy_chess::Board, x: Color, k: int)
    requires
        board_valid(w.board),
        board_legal_moves(w.board).contains(sm.mv),
        follows_all(w.board, sm),
        board_pieces(b2) == pieces_after(w.board, sm.mv),
        board_colors(b2) == colors_after(w.board, sm.mv),
        0 <= k < 5,
    ensures
        ({
            let b = w.board;
            let mv = sm.mv;
            let c = board_side(b);
            let m = moved_kind(b, mv);
            let pc = popcount(colored(b, x, Piece::of_int(k)));
            let pc2 = popcount(colored(b2, x, Piece::of_int(k)));
            &&& x == c && m == 0 && k == 0 && mv.promotion is Some ==> pc2 == pc - 1 && pc >= 1
            &&& x == c && m == 0 && (mv.promotion matches Some(pr) && pr.to_int() == k) ==> pc2 == pc + 1
            &&& x != c && (piece_on_spec(b, mv.to as int) matches Some(v) && v.to_int() == k) ==> pc2 == pc - 1 && pc >= 1
            &&& x != c && k == 0 && is_ep_capture(b, mv) ==> pc2 == pc - 1 && pc >= 1
            &&& !(x == c && m == 0 && k == 0 && mv.promotion is Some)
                && !(x == c && m == 0 && (mv.promotion matches Some(pr) && pr.to_int() == k))
                && !(x != c && (piece_on_spec(b, mv.to as int) matches Some(v) && v.to_int() == k))
                && !(x != c && k == 0 && is_ep_capture(b, mv)) ==> pc2 == pc
        }),
{
    let b = w.board;
    let mv = sm.mv;
    lemma_move_facts(b, mv);
    lemma_colored_after(b, mv, b2, x, k);
    let c = board_side(b);
    let o = c.opp();
    let m = moved_kind(b, mv);
    let from = mv.from as int;
    let to = mv.to as int;
    let bb = colored(b, x, Piece::of_int(k));
    assert(Piece::of_int(k).to_int() == k);
    lemma_has_and(board_colors(b)[x.to_int()], board_pieces(b)[k], from);
    lemma_has_and(board_colors(b)[x.to_int()], board_pieces(b)[k], to);
    lemma_count_toggle(bb, from, 64);
    lemma_count_toggle(bb, to, 64);
    if has(bb, from) {
        lemma_count_has(bb, from, 64);
    }
    if has(bb, to) {
        lemma_count_has(bb, to, 64);
    }
    lemma_xor3(bb, 0, 0);
    if x == c {
        if k == m {
            if m == 0 && mv.promotion is Some {
            } else {
                lemma_pc_pair(bb, from, to);
            }
        }
    } else {
        if k == 0 && is_ep_capture(b, mv) {
            let e = ep_victim(b, mv);
            lemma_has_and(board_colors(b)[x.to_int()], board_pieces(b)[k], e);
            lemma_count_toggle(bb, e, 64);
            if has(bb, e) {
                lemma_count_has(bb, e, 64);
            }
            match piece_on_spec(b, to) {
                Some(v) => {
                    assert(v.to_int() != 0);
                    lemma_xor3(0, square_bb(e), 0);
                    lemma_xor3(square_bb(e), 0, 0);
                },
                None => {
                    lemma_xor3(square_bb(e), 0, 0);
                },
            }
        }
    }
}

/// The xor bookkeeping of the material hash, for every combination of a
/// capture, a promotion and an en passant capture.
proof fn lemma_material_xor(
    mh: u64,
    mc: u64,
    mo: u64,
    v1: u64,
    v2: u64,
    p1: u64,
    p2: u64,
    q1: u64,
    q2: u64,
    e1: u64,
    e2: u64,
    hv: bool,
    hp: bool,
    he: bool,
)
    by (bit_vector)
    requires
        mh == mc ^ mo,
    ensures
        ({
            let m1 = if hv {
                (mh ^ v1) ^ v2
            } else {
                mh
            };
            let m2 = if hp {
                (((m1 ^ p1) ^ p2) ^ q1) ^ q2
            } else {
                m1
            };
            let m3 = if he {
                (m2 ^ e1) ^ e2
            } else {
                m2
            };
            let dc = if hp {
                (p2 ^ p1) ^ (q2 ^ q1)
            } else {
                0u64 ^ 0u64
            };
            let tv = if hv {
                v2 ^ v1
            } else {
                0u64
            };
            let dox = if he {
                (e2 ^ e1) ^ tv
            } else {
                tv ^ 0u64
            };
            m3 == (mc ^ dc) ^ (mo ^ dox)
        }),
{
}

proof fn lemma_material_part(w: BoardWrapper, sm: SortedMove, b2: cozy_chess::Board)
    requires
        w.hashes_match(),
        board_valid(w.board),
        board_legal_moves(w.board).contains(sm.mv),
        follows_all(w.board, sm),
        board_pieces(b2) == pieces_after(w.board, sm.mv),
        board_colors(b2) == colors_after(w.board, sm.mv),
    ensures
        play_hashes(w, sm).2 == material_hash_spec(b2),
{
    let b = w.board;
    let mv = sm.mv;
    lemma_move_facts(b, mv);
    let c = board_side(b);
    let o = c.opp();
    let ci = c.to_int();
    let oi = o.to_int();
    let m = moved_kind(b, mv);
    let to = mv.to as int;
    // The material hash of each board, side by side.
    lemma_material_shift(material_upto(0, b2, Color::White, 5), b2, Color::Black, 5);
    lemma_material_shift(material_upto(0, b, Color::White, 5), b, Color::Black, 5);
    lemma_material_delta(0, b, b2, Color::White, 5);
    lemma_material_delta(0, b, b2, Color::Black, 5);
    let mc = material_upto(0, b, c, 5);
    let mo = material_upto(0, b, o, 5);
    let dc = mat_delta(b, b2, c, 5);
    let dox = mat_delta(b, b2, o, 5);
    let mh = w.material_hash;
    lemma_xor3(mc, mo, 0);
    lemma_xor3(mc ^ dc, mo ^ dox, 0);
    assert(mh == mc ^ mo);
    assert(material_hash_spec(b2) == (mc ^ dc) ^ (mo ^ dox));
    // The counts that change.
    assert forall|k: int| #![trigger colored(b2, c, Piece::of_int(k))] 0 <= k < 5 implies {
        let pc = popcount(colored(b, c, Piece::of_int(k)));
        let pc2 = popcount(colored(b2, c, Piece::of_int(k)));
        &&& m == 0 && k == 0 && mv.promotion is Some ==> pc2 == pc - 1 && pc >= 1
        &&& m == 0 && (mv.promotion matches Some(pr) && pr.to_int() == k) ==> pc2 == pc + 1
        &&& !(m == 0 && k == 0 && mv.promotion is Some) && !(m == 0 && (mv.promotion matches Some(pr) && pr.to_int() == k)) ==> pc2 == pc
    } by {
        lemma_counts_after(w, sm, b2, c, k);
    }
    assert forall|k: int| #![trigger colored(b2, o, Piece::of_int(k))] 0 <= k < 5 implies {
        let pc = popcount(colored(b, o, Piece::of_int(k)));
        let pc2 = popcount(colored(b2, o, Piece::of_int(k)));
        &&& (piece_on_spec(b, to) matches Some(v) && v.to_int() == k) ==> pc2 == pc - 1 && pc >= 1
        &&& k == 0 && is_ep_capture(b, mv) ==> pc2 == pc - 1 && pc >= 1
        &&& !(piece_on_spec(b, to) matches Some(v) && v.to_int() == k) && !(k == 0 && is_ep_capture(b, mv)) ==> pc2 == pc
    } by {
        lemma_counts_after(w, sm, b2, o, k);
    }
    let hp = m == 0 && mv.promotion is Some;
    let hv = piece_on_spec(b, to) is Some;
    let he = is_ep_capture(b, mv);
    // The mover's side.
    let pc = popcount(colored(b, c, Piece::Pawn));
    let p1 = COUNT_BY_SIDE_KEYS[ci][0][pc];
    let p2 = COUNT_BY_SIDE_KEYS[ci][0][pc - 1];
    let pr_i = if hp {
        mv.promotion.unwrap().to_int()
    } else {
        1
    };
    let prc = popcount(colored(b, c, Piece::of_int(pr_i)));
    let q1 = COUNT_BY_SIDE_KEYS[ci][pr_i][prc];
    let q2 = COUNT_BY_SIDE_KEYS[ci][pr_i][prc + 1];
    if hp {
        assert(1 <= pr_i <= 4);
        assert forall|k: int| 0 <= k < 5 && k != 0 && k != pr_i implies #[trigger] popcount(colored(b2, c, Piece::of_int(k))) == popcount(colored(b, c, Piece::of_int(k))) by {}
        lemma_mat_delta_two(b, b2, c, 0, pr_i, 5);
        assert(Piece::of_int(0) == Piece::Pawn);
        assert(count_term(b, b2, c, 0) == p2 ^ p1);
        assert(count_term(b, b2, c, pr_i) == q2 ^ q1);
    } else {
        assert forall|k: int| 0 <= k < 5 && k != 5 && k != 6 implies #[trigger] popcount(colored(b2, c, Piece::of_int(k))) == popcount(colored(b, c, Piece::of_int(k))) by {}
        lemma_mat_delta_two(b, b2, c, 5, 6, 5);
    }
    // The other side.
    let cc = popcount(colored(b, o, Piece::Pawn));
    let e1 = COUNT_BY_SIDE_KEYS[oi][0][cc];
    let e2 = COUNT_BY_SIDE_KEYS[oi][0][cc - 1];
    let v_i = match piece_on_spec(b, to) {
        Some(v) => v.to_int(),
        None => 1,
    };
    let cnt = popcount(colored(b, o, Piece::of_int(v_i)));
    let v1 = COUNT_BY_SIDE_KEYS[oi][v_i][cnt];
    let v2 = COUNT_BY_SIDE_KEYS[oi][v_i][cnt - 1];
    if hv {
        assert(1 <= v_i <= 4);
    }
    if he && hv {
        assert forall|k: int| 0 <= k < 5 && k != 0 && k != v_i implies #[trigger] popcount(colored(b2, o, Piece::of_int(k))) == popcount(colored(b, o, Piece::of_int(k))) by {}
        lemma_mat_delta_two(b, b2, o, 0, v_i, 5);
    } else if he {
        assert forall|k: int| 0 <= k < 5 && k != 0 && k != 5 implies #[trigger] popcount(colored(b2, o, Piece::of_int(k))) == popcount(colored(b, o, Piece::of_int(k))) by {}
        lemma_mat_delta_two(b, b2, o, 0, 5, 5);
    } else if hv {
        assert forall|k: int| 0 <= k < 5 && k != v_i && k != 5 implies #[trigger] popcount(colored(b2, o, Piece::of_int(k))) == popcount(colored(b, o, Piece::of_int(k))) by {}
        lemma_mat_delta_two(b, b2, o, v_i, 5, 5);
    } else {
        assert forall|k: int| 0 <= k < 5 && k != 5 && k != 6 implies #[trigger] popcount(colored(b2, o, Piece::of_int(k))) == popcount(colored(b, o, Piece::of_int(k))) by {}
        lemma_mat_delta_two(b, b2, o, 5, 6, 5);
    }
    assert(Piece::of_int(0) == Piece::Pawn);
    if he {
        assert(count_term(b, b2, o, 0) == e2 ^ e1);
    }
    if hv {
        assert(count_term(b, b2, o, v_i) == v2 ^ v1);
    }
    lemma_material_xor(mh, mc, mo, v1, v2, p1, p2, q1, q2, e1, e2, hv, hp, he);
    // What `play_hashes` computes.
    let m1 = capture_hashes(w, sm).0;
    assert(m1 == if hv {
        (mh ^ v1) ^ v2
    } else {
        mh
    });
    assert(piece_on_spec(b, mv.from as int) == Some(Piece::of_int(m)));
    if m == 0 {
        let e = ep_victim(b, mv);
        if he {
            assert(e == make_square(board_en_passant(b).unwrap() as int, relative_rank(3, o)));
            assert(piece_on_spec(b, e) == Some(Piece::Pawn)) by {
                assert(has(board_pieces(b)[0], e));
            }
        }
    }
}

/// Playing a move keeps the three hashes equal to those of the board, for
/// every move of `hashes_follow`.
pub proof fn lemma_play_keeps_hashes(w: BoardWrapper, sm: SortedMove, b2: cozy_chess::Board)
    requires
        w.hashes_match(),
        board_valid(w.board),
        board_legal_moves(w.board).contains(sm.mv),
        hashes_follow(w.board, sm),
        board_pieces(b2) == pieces_after(w.board, sm.mv),
        board_colors(b2) == colors_after(w.board, sm.mv),
    ensures
        play_hashes(w, sm).0 == pawn_hash_spec(b2),
        play_hashes(w, sm).1 == non_pawn_hash_spec(b2),
        play_hashes(w, sm).2 == material_hash_spec(b2),
{
    let b = w.board;
    let i = choose|i: int| 0 <= i < board_legal_moves(b).len() && board_legal_moves(b)[i] == sm.mv;
    assert(board_legal_moves(b)[i] == sm.mv);
    lemma_move_facts(b, sm.mv);
    assert(follows_all(b, sm));
    lemma_pawn_part(w, sm, b2);
    lemma_non_pawn_part(w, sm, b2);
    lemma_material_part(w, sm, b2);
}

} // verus!
