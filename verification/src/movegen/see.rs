//! Static exchange evaluation: the material balance of the capture sequence on
//! one square, each side recapturing with its least valuable attacker, either
//! side free to stop.

use vstd::prelude::*;
use crate::board::{
    bishop_attacks, bishop_moves, board_colors, board_en_passant, board_pieces, board_side,
    colors, en_passant, king_attacks, king_moves, knight_attacks, knight_moves, occupied,
    occupied_spec, pawn_attack_set, pawn_attacks, piece_on, piece_on_spec, pieces, rook_attacks,
    rook_moves, side_to_move,
};
use crate::chess::{
    ChessMove, Color, Piece, bb_lowest, bb_of_square, lemma_lowest_of_nonempty, lowest_square,
    make_square, new_square, rank_relative_to, relative_rank, square_bb, square_file,
    square_rank,
};

verus! {

/// The exchange value of each piece.
pub open spec fn piece_pts_spec(p: Piece) -> int {
    match p {
        Piece::Pawn => 100,
        Piece::Knight => 375,
        Piece::Bishop => 375,
        Piece::Rook => 500,
        Piece::Queen => 1025,
        Piece::King => 10000,
    }
}

/// The pieces of kind `p` and color `color` among `blockers` that attack `to`,
/// sliders seeing through the squares no longer in `blockers`.
pub open spec fn attackers_of(
    b: cozy_chess::Board,
    to: int,
    color: Color,
    blockers: u64,
    p: Piece,
) -> u64 {
    let defenders = board_colors(b)[color.to_int()] & blockers;
    (match p {
        Piece::Pawn => pawn_attack_set(to, color.opp()),
        Piece::Knight => knight_attacks(to),
        Piece::Bishop => bishop_attacks(to, blockers),
        Piece::Rook => rook_attacks(to, blockers),
        Piece::Queen => rook_attacks(to, blockers) | bishop_attacks(to, blockers),
        Piece::King => king_attacks(to),
    }) & board_pieces(b)[p.to_int()] & defenders
}

/// The least valuable attacker (in `Piece::ALL` order from `n`) and its lowest square.
pub open spec fn first_attacker(
    b: cozy_chess::Board,
    to: int,
    color: Color,
    blockers: u64,
    n: int,
) -> Option<(Piece, int)>
    decreases 6 - n,
{
    if n >= 6 {
        None
    } else {
        let a = attackers_of(b, to, color, blockers, Piece::of_int(n));
        if a != 0 {
            Some((Piece::of_int(n), lowest_square(a)))
        } else {
            first_attacker(b, to, color, blockers, n + 1)
        }
    }
}

/// The speculative gains of the exchange from step `i` on, with `gains` holding
/// the first `i`; also the last step at which a recapture was found.
pub open spec fn see_forward(
    b: cozy_chess::Board,
    to: int,
    color: Color,
    blockers: u64,
    last_pts: int,
    gains: Seq<int>,
    i: int,
    max_depth: int,
) -> (Seq<int>, int)
    decreases 32 - i,
{
    if i >= 32 {
        (gains, max_depth)
    } else {
        let g = gains.push(last_pts - gains[i - 1]);
        match first_attacker(b, to, color, blockers, 0) {
            Some((p, a)) => see_forward(
                b,
                to,
                color.opp(),
                blockers & !square_bb(a),
                piece_pts_spec(p),
                g,
                i + 1,
                i,
            ),
            None => (g, max_depth),
        }
    }
}

/// The value of the exchange from step `d` on, each side taking the better of
/// stopping and going on.
pub open spec fn fold_from(gains: Seq<int>, d: int, max_depth: int) -> int
    decreases max_depth - d,
{
    if d >= max_depth {
        gains[max_depth]
    } else {
        let rest = fold_from(gains, d + 1, max_depth);
        if -gains[d] > rest {
            gains[d]
        } else {
            -rest
        }
    }
}

/// The move captures en passant.
pub open spec fn is_en_passant(b: cozy_chess::Board, mv: ChessMove) -> bool {
    piece_on_spec(b, mv.from as int) == Some(Piece::Pawn) && board_en_passant(b) == Some(
        square_file(mv.to as int) as u8,
    ) && square_rank(mv.to as int) == relative_rank(5, board_side(b))
}

/// The square of the pawn taken en passant.
pub open spec fn ep_pawn_square(b: cozy_chess::Board, mv: ChessMove) -> int {
    match board_side(b) {
        Color::White => make_square(square_file(mv.to as int), 4),
        Color::Black => make_square(square_file(mv.to as int), 3),
    }
}

/// The exchange value of a capture: what it wins if both sides recapture with
/// their least valuable attacker for as long as that pays.
pub open spec fn see_spec(b: cozy_chess::Board, mv: ChessMove) -> int {
    let mover = piece_on_spec(b, mv.from as int).unwrap();
    let ep = is_en_passant(b, mv);
    let g0 = if ep {
        100
    } else {
        match piece_on_spec(b, mv.to as int) {
            Some(p) => piece_pts_spec(p),
            None => 0,
        }
    };
    let blockers0 = occupied_spec(b) & !square_bb(mv.from as int);
    let blockers = if ep {
        blockers0 & !square_bb(ep_pawn_square(b, mv))
    } else {
        blockers0
    };
    let (gains, max_depth) = see_forward(
        b,
        mv.to as int,
        board_side(b).opp(),
        blockers,
        piece_pts_spec(mover),
        seq![g0],
        1,
        0,
    );
    fold_from(gains, 0, max_depth)
}

pub struct See {
    gains: Vec<i32>,
}

impl See {
    pub fn new() -> (s: See) {
        let mut gains: Vec<i32> = Vec::new();
        let mut i: usize = 0;
        while i < 32
            invariant
                i <= 32,
                gains@.len() == i,
            decreases 32 - i,
        {
            gains.push(0);
            i = i + 1;
        }
        See { gains: gains }
    }

    pub fn piece_pts(&self, piece: Piece) -> (r: i32)
        ensures
            r == piece_pts_spec(piece),
    {
        match piece {
            Piece::Pawn => 100,
            Piece::Knight => 375,
            Piece::Bishop => 375,
            Piece::Rook => 500,
            Piece::Queen => 1025,
            Piece::King => 10000,
        }
    }

    fn attackers(
        board: &cozy_chess::Board,
        to: u8,
        color: Color,
        blockers: u64,
        piece: Piece,
    ) -> (r: u64)
        requires
            to < 64,
        ensures
            r == attackers_of(*board, to as int, color, blockers, piece),
    {
        let defenders = colors(board, color) & blockers;
        let moves = match piece {
            Piece::Pawn => pawn_attacks(to, color.other()),
            Piece::Knight => knight_moves(to),
            Piece::Bishop => bishop_moves(to, blockers),
            Piece::Rook => rook_moves(to, blockers),
            Piece::Queen => rook_moves(to, blockers) | bishop_moves(to, blockers),
            Piece::King => king_moves(to),
        };
        moves & pieces(board, piece) & defenders
    }

    fn least_valuable_attacker(
        board: &cozy_chess::Board,
        to: u8,
        color: Color,
        blockers: u64,
    ) -> (r: Option<(Piece, u8)>)
        requires
            to < 64,
        ensures
            r matches Some((p, a)) ==> a < 64 && first_attacker(*board, to as int, color, blockers, 0)
                == Some((p, a as int)),
            r is None ==> first_attacker(*board, to as int, color, blockers, 0) is None,
    {
        let mut n: usize = 0;
        while n < 6
            invariant
                n <= 6,
                to < 64,
                first_attacker(*board, to as int, color, blockers, 0) == first_attacker(
                    *board,
                    to as int,
                    color,
                    blockers,
                    n as int,
                ),
            decreases 6 - n,
        {
            let piece = Piece::from_index(n);
            let attackers = Self::attackers(board, to, color, blockers, piece);
            if attackers != 0 {
                proof {
                    lemma_lowest_of_nonempty(attackers);
                }
                let attacker = bb_lowest(attackers);
                return Some((piece, attacker));
            }
            n = n + 1;
        }
        None
    }

    /// The exchange value of `mv`, a move of a piece of the side to move.
    pub fn see(&mut self, board: &cozy_chess::Board, mv: ChessMove) -> (r: i32)
        requires
            mv.from < 64,
            mv.to < 64,
            piece_on_spec(*board, mv.from as int) is Some,
        ensures
            r == see_spec(*board, mv),
            -320000 <= r <= 320000,
    {
        let mv_piece = match piece_on(board, mv.from) {
            Some(p) => p,
            None => {
                assert(false);
                Piece::Pawn
            },
        };
        let side = side_to_move(board);

        let ep_file = en_passant(board);
        let is_ep = mv_piece == Piece::Pawn && ep_file == Some(mv.to % 8) && mv.to / 8
            == rank_relative_to(5, side);

        let g0: i32 = if is_ep {
            self.piece_pts(Piece::Pawn)
        } else {
            match piece_on(board, mv.to) {
                Some(piece) => self.piece_pts(piece),
                None => 0,
            }
        };

        let mut color = side.other();

        let mut blockers = occupied(board) & !bb_of_square(mv.from);
        if is_ep {
            let ep_pawn_sq = match side {
                Color::White => new_square(mv.to % 8, 4),
                Color::Black => new_square(mv.to % 8, 3),
            };
            blockers = blockers & !bb_of_square(ep_pawn_sq);
        }

        let mut last_piece_pts = self.piece_pts(mv_piece);
        let mut max_depth: usize = 0;

        let mut gains: Vec<i32> = Vec::new();
        gains.push(g0);
        let ghost gs: Seq<int> = seq![g0 as int];
        let ghost target = see_forward(
            *board,
            mv.to as int,
            color,
            blockers,
            last_piece_pts as int,
            gs,
            1,
            0,
        );
        let mut i: usize = 1;
        let mut done = false;
        while i < 32 && !done
            invariant
                1 <= i <= 32,
                mv.to < 64,
                gains@.len() == i,
                gs.len() == i,
                forall|k: int| 0 <= k < i ==> gains@[k] == gs[k],
                forall|k: int| 0 <= k < i ==> -10000 * (k + 1) <= #[trigger] gs[k] <= 10000 * (
                k + 1),
                0 <= last_piece_pts <= 10000,
                max_depth < i,
                done ==> target == (gs, max_depth as int),
                !done ==> target == see_forward(
                    *board,
                    mv.to as int,
                    color,
                    blockers,
                    last_piece_pts as int,
                    gs,
                    i as int,
                    max_depth as int,
                ),
            decreases 32 - i,
        {
            let g = last_piece_pts - gains[i - 1];
            gains.push(g);
            proof {
                gs = gs.push(g as int);
            }
            match Self::least_valuable_attacker(board, mv.to, color, blockers) {
                Some((piece, attacker)) => {
                    last_piece_pts = self.piece_pts(piece);
                    blockers = blockers & !bb_of_square(attacker);
                    color = color.other();
                    max_depth = i;
                    i = i + 1;
                },
                None => {
                    done = true;
                    i = i + 1;
                },
            }
        }
        if !done {
            assert(target == (gs, max_depth as int));
        }
        assert(forall|k: int| 0 <= k < gs.len() ==> -320000 <= #[trigger] gs[k] <= 320000);
        let ghost orig = gs;
        let mut depth = max_depth;
        while depth >= 1
            invariant
                depth <= max_depth,
                max_depth < gains@.len(),
                gains@.len() == orig.len(),
                forall|k: int| 0 <= k < depth ==> gains@[k] == orig[k],
                forall|k: int| 0 <= k < orig.len() ==> -320000 <= #[trigger] orig[k] <= 320000,
                gains@[depth as int] == fold_from(orig, depth as int, max_depth as int),
                -320000 <= fold_from(orig, depth as int, max_depth as int) <= 320000,
            decreases depth,
        {
            assert(gains@[depth - 1] == orig[depth - 1]);
            assert(-320000 <= orig[depth - 1] <= 320000);
            let a = -gains[depth - 1];
            let b = gains[depth];
            let m = if a > b {
                a
            } else {
                b
            };
            gains.set(depth - 1, -m);
            depth = depth - 1;
        }
        let r = gains[0];
        self.gains = gains;
        r
    }
}


proof fn lemma_piece_pts_bounds(p: Piece)
    ensures
        0 <= piece_pts_spec(p) <= 10000,
{
}

/// The speculative gains stay within ten thousand per step.
proof fn lemma_forward_bounds(
    b: cozy_chess::Board,
    to: int,
    color: Color,
    blockers: u64,
    last_pts: int,
    gains: Seq<int>,
    i: int,
    max_depth: int,
)
    requires
        1 <= i <= 32,
        gains.len() == i,
        0 <= last_pts <= 10000,
        0 <= max_depth < i,
        forall|k: int| 0 <= k < i ==> -10000 * (k + 1) <= #[trigger] gains[k] <= 10000 * (k + 1),
    ensures
        ({
            let (g, m) = see_forward(b, to, color, blockers, last_pts, gains, i, max_depth);
            &&& 0 <= m < g.len() <= 32
            &&& forall|k: int| 0 <= k < g.len() ==> -320000 <= #[trigger] g[k] <= 320000
        }),
    decreases 32 - i,
{
    if i < 32 {
        let g = gains.push(last_pts - gains[i - 1]);
        assert forall|k: int| 0 <= k < i + 1 implies -10000 * (k + 1) <= #[trigger] g[k] <= 10000 * (k
            + 1) by {
            if k < i {
                assert(g[k] == gains[k]);
            }
        }
        match first_attacker(b, to, color, blockers, 0) {
            Some((p, a)) => {
                lemma_piece_pts_bounds(p);
                lemma_forward_bounds(
                    b,
                    to,
                    color.opp(),
                    blockers & !square_bb(a),
                    piece_pts_spec(p),
                    g,
                    i + 1,
                    i,
                );
            },
            None => {
                assert forall|k: int| 0 <= k < g.len() implies -320000 <= #[trigger] g[k] <= 320000 by {
                    assert(-10000 * (k + 1) <= g[k] <= 10000 * (k + 1));
                }
            },
        }
    } else {
        assert forall|k: int| 0 <= k < gains.len() implies -320000 <= #[trigger] gains[k] <= 320000 by {
            assert(-10000 * (k + 1) <= gains[k] <= 10000 * (k + 1));
        }
    }
}

proof fn lemma_fold_bounds(gains: Seq<int>, d: int, max_depth: int)
    requires
        0 <= d,
        0 <= max_depth < gains.len(),
        forall|k: int| 0 <= k < gains.len() ==> -320000 <= #[trigger] gains[k] <= 320000,
    ensures
        -320000 <= fold_from(gains, d, max_depth) <= 320000,
    decreases max_depth - d,
{
    if d < max_depth {
        lemma_fold_bounds(gains, d + 1, max_depth);
    }
}

/// The exchange value of any move lies within 320000 either way.
pub proof fn lemma_see_bounds(b: cozy_chess::Board, mv: ChessMove)
    ensures
        -320000 <= see_spec(b, mv) <= 320000,
{
    let mover = piece_on_spec(b, mv.from as int).unwrap();
    lemma_piece_pts_bounds(mover);
    let ep = is_en_passant(b, mv);
    let g0 = if ep {
        100
    } else {
        match piece_on_spec(b, mv.to as int) {
            Some(p) => piece_pts_spec(p),
            None => 0,
        }
    };
    match piece_on_spec(b, mv.to as int) {
        Some(p) => lemma_piece_pts_bounds(p),
        None => {},
    }
    let blockers0 = occupied_spec(b) & !square_bb(mv.from as int);
    let blockers = if ep {
        blockers0 & !square_bb(ep_pawn_square(b, mv))
    } else {
        blockers0
    };
    lemma_forward_bounds(
        b,
        mv.to as int,
        board_side(b).opp(),
        blockers,
        piece_pts_spec(mover),
        seq![g0],
        1,
        0,
    );
    let (gains, max_depth) = see_forward(
        b,
        mv.to as int,
        board_side(b).opp(),
        blockers,
        piece_pts_spec(mover),
        seq![g0],
        1,
        0,
    );
    lemma_fold_bounds(gains, 0, max_depth);
}


proof fn lemma_first_attacker_from(b: cozy_chess::Board, to: int, color: Color, blockers: u64, n: int)
    requires
        0 <= n <= 6,
    ensures
        first_attacker(b, to, color, blockers, n) matches Some((p, a)) ==> n <= p.to_int() < 6
            && attackers_of(b, to, color, blockers, p) != 0 && a == lowest_square(
            attackers_of(b, to, color, blockers, p),
        ) && forall|q: Piece|
            n <= q.to_int() < p.to_int() ==> #[trigger] attackers_of(b, to, color, blockers, q) == 0,
        first_attacker(b, to, color, blockers, n) is None ==> forall|q: Piece|
            n <= q.to_int() ==> #[trigger] attackers_of(b, to, color, blockers, q) == 0,
    decreases 6 - n,
{
    if n < 6 {
        lemma_first_attacker_from(b, to, color, blockers, n + 1);
        assert(Piece::of_int(n).to_int() == n);
        assert forall|q: Piece| q.to_int() == n implies q == Piece::of_int(n) by {
        }
    }
}

/// The exchange goes on with a least valuable attacker: the piece that
/// recaptures attacks the square, and no piece of lower kind (in the order
/// pawn, knight, bishop, rook, queen, king) of that color does; it recaptures
/// from the lowest of its squares. When no piece is found, none attacks.
pub proof fn lemma_least_valuable_attacker(b: cozy_chess::Board, to: int, color: Color, blockers: u64)
    ensures
        first_attacker(b, to, color, blockers, 0) matches Some((p, a)) ==> attackers_of(
            b,
            to,
            color,
            blockers,
            p,
        ) != 0 && a == lowest_square(attackers_of(b, to, color, blockers, p)) && forall|q: Piece|
            q.to_int() < p.to_int() ==> #[trigger] attackers_of(b, to, color, blockers, q) == 0,
        first_attacker(b, to, color, blockers, 0) is None ==> forall|q: Piece| #[trigger]
            attackers_of(b, to, color, blockers, q) == 0,
{
    lemma_first_attacker_from(b, to, color, blockers, 0);
    assert forall|q: Piece| 0 <= #[trigger] q.to_int() by {}
}


/// Going forward only appends gains: those already counted stay, and the
/// step after them is always taken while steps remain.
proof fn lemma_forward_prefix(
    b: cozy_chess::Board,
    to: int,
    color: Color,
    blockers: u64,
    last_pts: int,
    gains: Seq<int>,
    i: int,
    max_depth: int,
)
    requires
        1 <= i <= 32,
        gains.len() == i,
        0 <= max_depth < i,
    ensures
        ({
            let (g, m) = see_forward(b, to, color, blockers, last_pts, gains, i, max_depth);
            &&& i < 32 ==> g.len() > i && g[i] == last_pts - gains[i - 1]
            &&& g.len() >= i
            &&& forall|k: int| 0 <= k < i ==> #[trigger] g[k] == gains[k]
            &&& 0 <= m < g.len()
            &&& (m == 0 ==> max_depth == 0)
            &&& (i > 1 ==> max_depth == 0 || m >= max_depth)
        }),
    decreases 32 - i,
{
    if i < 32 {
        let g = gains.push(last_pts - gains[i - 1]);
        match first_attacker(b, to, color, blockers, 0) {
            Some((p, a)) => {
                lemma_forward_prefix(
                    b,
                    to,
                    color.opp(),
                    blockers & !square_bb(a),
                    piece_pts_spec(p),
                    g,
                    i + 1,
                    i,
                );
                let (g2, m2) = see_forward(b, to, color.opp(), blockers & !square_bb(a), piece_pts_spec(p), g, i + 1, i);
                assert forall|k: int| 0 <= k < i implies #[trigger] g2[k] == gains[k] by {
                    assert(g2[k] == g[k]);
                }
                assert(g2[i] == g[i]);
            },
            None => {},
        }
    }
}

proof fn lemma_fold_at_most(gains: Seq<int>, d: int, max_depth: int)
    requires
        0 <= d <= max_depth < gains.len(),
    ensures
        fold_from(gains, d, max_depth) <= gains[d],
    decreases max_depth - d,
{
    if d < max_depth {
        lemma_fold_at_most(gains, d + 1, max_depth);
    }
}

/// A capture never wins more than the piece it takes, and never loses more
/// than the capturing piece less what it took: the exchange value lies
/// between the taken piece's value minus the capturer's and the taken
/// piece's value (the value of a pawn taken en passant counting as taken).
pub proof fn lemma_see_between(b: cozy_chess::Board, mv: ChessMove)
    ensures
        ({
            let taken = if is_en_passant(b, mv) {
                100
            } else {
                match piece_on_spec(b, mv.to as int) {
                    Some(p) => piece_pts_spec(p),
                    None => 0,
                }
            };
            let capturer = piece_pts_spec(piece_on_spec(b, mv.from as int).unwrap());
            taken - capturer <= see_spec(b, mv) <= taken
        }),
{
    let mover = piece_on_spec(b, mv.from as int).unwrap();
    let ep = is_en_passant(b, mv);
    let g0 = if ep {
        100
    } else {
        match piece_on_spec(b, mv.to as int) {
            Some(p) => piece_pts_spec(p),
            None => 0,
        }
    };
    let blockers0 = occupied_spec(b) & !square_bb(mv.from as int);
    let blockers = if ep {
        blockers0 & !square_bb(ep_pawn_square(b, mv))
    } else {
        blockers0
    };
    let first = seq![g0];
    lemma_forward_prefix(b, mv.to as int, board_side(b).opp(), blockers, piece_pts_spec(mover), first, 1, 0);
    let (gains, max_depth) = see_forward(
        b,
        mv.to as int,
        board_side(b).opp(),
        blockers,
        piece_pts_spec(mover),
        first,
        1,
        0,
    );
    assert(gains[0] == g0);
    assert(gains[1] == piece_pts_spec(mover) - g0);
    lemma_fold_at_most(gains, 0, max_depth);
    if max_depth > 0 {
        lemma_fold_at_most(gains, 1, max_depth);
    }
}


/// The exchange values of the pieces: a pawn is worth least, knight and
/// bishop alike, then rook and queen, and the king more than a side's whole
/// starting army.
pub proof fn lemma_piece_values()
    ensures
        0 < piece_pts_spec(Piece::Pawn) < piece_pts_spec(Piece::Knight),
        piece_pts_spec(Piece::Knight) == piece_pts_spec(Piece::Bishop),
        piece_pts_spec(Piece::Bishop) < piece_pts_spec(Piece::Rook) < piece_pts_spec(Piece::Queen),
        8 * piece_pts_spec(Piece::Pawn) + 2 * piece_pts_spec(Piece::Knight) + 2 * piece_pts_spec(Piece::Bishop)
            + 2 * piece_pts_spec(Piece::Rook) + piece_pts_spec(Piece::Queen) < piece_pts_spec(Piece::King),
{
}

} // verus!
