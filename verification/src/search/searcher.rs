//! The decisions that the alpha-beta search takes at a node: cutoffs, pruning
//! conditions, extensions and reductions, and how a searched move changes the
//! node's bounds.

use vstd::prelude::*;
use crate::board::{
    board_after, board_checkers, board_status, board_valid, status, board_colors, board_legal_moves, board_pieces, board_side,
    checkers, colors, is_legal, occupied, occupied_spec, pieces, play_unchecked, side_to_move,
};
use crate::chess::{ChessMove, GameStatus, Piece, has, bb_has, relative_rank, square_rank};
use crate::eval::evaluator::{is_passed, pawn_is_passed};
use crate::eval::score::{CHECKMATE_BASE, DRAW, Eval, trunc_div};
use crate::search::tt::{NodeKind, TT, TTEntry, TT_SCORE_LIMIT, remove_mate_spec};
use crate::search::search_master::TimeControl;
use crate::movegen::boardwrapper::{BoardWrapper, lemma_capture_count};
use crate::movegen::movegen::{
    MoveGen, SortedMove, capture_searchable, captures, lemma_move_gen_moves, lemma_qmove_gen_moves,
    sound_move, their_pieces, unskipped,
};
use crate::movegen::movesorter::{MoveType, moves_of};
use crate::eval::evaluator::{evaluate, evaluate_spec};
use crate::eval::score::CHECKMATE_DEFINITE;
use crate::board::{board_hash, hash, piece_on_spec};

verus! {

/// Reverse futility pruning applies up to this depth.
pub const MAX_DEPTH_RFP: i32 = 6;

/// The margin of reverse futility pruning per ply of depth.
pub const MULTIPLIER_RFP: i32 = 80;

/// History pruning applies from this depth on.
pub const HISTORY_DEPTH_MIN: i32 = 5;

/// Internal iterative deepening applies from this depth on.
pub const IID_DEPTH_MIN: i32 = 6;

/// Late move pruning applies up to this depth.
pub const LMP_DEPTH_MAX: i32 = 3;

/// Pruning after a move that did not raise alpha applies up to this depth.
pub const SPP_DEPTH_CAP: i32 = 3;

/// Underpromotions are reduced from this depth on.
pub const UNDERPROMO_REDUC_DEPTH: i32 = 4;

/// The number of plies whose static evaluation is kept.
pub const EVAL_STACK_LEN: usize = 300;

/// Mate distance pruning: where a mate delivered at this ply could not beat
/// alpha, the node scores that mate. An alpha of `-i32::MAX` stands for no
/// bound.
pub fn mate_distance_cutoff(alpha: i32, ply: i32) -> (r: Option<Eval>)
    requires
        ply >= 0,
    ensures
        r == (if alpha != -i32::MAX && CHECKMATE_BASE - ply <= alpha {
            Some(Eval { score: (CHECKMATE_BASE - ply) as i32, mate: true })
        } else {
            None
        }),
{
    if alpha != -i32::MAX && CHECKMATE_BASE - ply <= alpha {
        Some(Eval { score: CHECKMATE_BASE - ply, mate: true })
    } else {
        None
    }
}

/// The score of a finished game: the side to move is mated (scored against it,
/// nearer mates worse) or it is a draw. `None` while the game goes on.
pub fn terminal_eval(board: &cozy_chess::Board, ply: i32) -> (r: Option<Eval>)
    requires
        board_valid(*board),
        ply >= 0,
    ensures
        r is None ==> board_legal_moves(*board).len() > 0,
        r == (match board_status(*board) {
            GameStatus::Won => Some(Eval { score: (-CHECKMATE_BASE + ply) as i32, mate: true }),
            GameStatus::Drawn => Some(Eval { score: DRAW, mate: false }),
            GameStatus::Ongoing => None,
        }),
{
    match status(board) {
        GameStatus::Won => Some(Eval { score: -CHECKMATE_BASE + ply, mate: true }),
        GameStatus::Drawn => Some(Eval { score: DRAW, mate: false }),
        GameStatus::Ongoing => None,
    }
}

/// Whether the position hash occurs among the earlier positions, the last one
/// (the position itself) left out.
pub fn is_repetition(hash: u64, past_positions: &Vec<u64>) -> (r: bool)
    ensures
        r == exists|i: int| 0 <= i < past_positions@.len() - 1 && past_positions@[i] == hash,
{
    let n = past_positions.len();
    if n == 0 {
        return false;
    }
    let mut i: usize = 0;
    while i < n - 1
        invariant
            n == past_positions@.len(),
            n > 0,
            i <= n - 1,
            forall|j: int| 0 <= j < i ==> past_positions@[j] != hash,
        decreases n - 1 - i,
    {
        if past_positions[i] == hash {
            return true;
        }
        i = i + 1;
    }
    false
}

/// Whether a stored bound settles the node: an exact score always does, an
/// upper bound at or below alpha and a lower bound at or above beta do.
pub open spec fn bound_settles(kind: NodeKind, eval: int, alpha: int, beta: int) -> bool {
    match kind {
        NodeKind::Exact => true,
        NodeKind::UpperBound => eval <= alpha,
        NodeKind::LowerBound => eval >= beta,
        NodeKind::Null => false,
    }
}

/// The score of a table entry, marked as a mate beyond the mate base.
pub open spec fn entry_eval(e: TTEntry) -> Eval {
    Eval { score: e.eval, mate: e.eval < -CHECKMATE_BASE || e.eval > CHECKMATE_BASE }
}

/// The score that a table entry settles the node with, if it does.
pub fn tt_bound_cutoff(entry: &TTEntry, alpha: i32, beta: i32) -> (r: Option<Eval>)
    ensures
        r == (if bound_settles(entry.node_kind, entry.eval as int, alpha as int, beta as int) {
            Some(entry_eval(*entry))
        } else {
            None
        }),
{
    let settles = match entry.node_kind {
        NodeKind::Exact => true,
        NodeKind::UpperBound => entry.eval <= alpha,
        NodeKind::LowerBound => entry.eval >= beta,
        NodeKind::Null => false,
    };
    if settles {
        Some(
            Eval {
                score: entry.eval,
                mate: entry.eval < -CHECKMATE_BASE || entry.eval > CHECKMATE_BASE,
            },
        )
    } else {
        None
    }
}

/// As `tt_bound_cutoff`, for an entry searched at least as deep as `depth`.
pub fn tt_search_cutoff(entry: &TTEntry, depth: i32, alpha: i32, beta: i32) -> (r: Option<Eval>)
    ensures
        r == (if entry.depth >= depth && bound_settles(
            entry.node_kind,
            entry.eval as int,
            alpha as int,
            beta as int,
        ) {
            Some(entry_eval(*entry))
        } else {
            None
        }),
{
    if entry.depth >= depth {
        tt_bound_cutoff(entry, alpha, beta)
    } else {
        None
    }
}

/// The table move, to be searched before any move is generated: only where it
/// is legal here, since an entry of another position whose hash matches may
/// hold any move and `Board::play_unchecked` is defined on legal moves alone
/// (on any other it may panic or leave a corrupt board); loud when it lands on
/// an enemy piece. Without it, every move is generated at once.
pub open spec fn table_move_spec(b: cozy_chess::Board, entry: Option<TTEntry>) -> Option<SortedMove> {
    match entry {
        Some(e) => match e.best_move {
            Some(m) => if m.from < 64 && m.to < 64 && board_legal_moves(b).contains(m) {
                Some(
                    SortedMove::fresh(
                        m,
                        0,
                        if has(board_colors(b)[board_side(b).opp().to_int()], m.to as int) {
                            MoveType::Loud
                        } else {
                            MoveType::Quiet
                        },
                    ),
                )
            } else {
                None
            },
            None => None,
        },
        None => None,
    }
}

pub fn table_move_first(board: &cozy_chess::Board, entry: Option<TTEntry>) -> (r: Option<SortedMove>)
    requires
        board_valid(*board),
    ensures
        r == table_move_spec(*board, entry),
{
    match entry {
        Some(e) => match e.best_move {
            Some(m) => {
                if m.from < 64 && m.to < 64 && is_legal(board, m) {
                    let their = colors(board, side_to_move(board).other());
                    let movetype = if bb_has(their, m.to) {
                        MoveType::Loud
                    } else {
                        MoveType::Quiet
                    };
                    Some(SortedMove::new(m, 0, movetype))
                } else {
                    None
                }
            },
            None => None,
        },
        None => None,
    }
}

/// Internal iterative reduction: without a table move, a node deep enough
/// for its ply is searched a tenth (and one ply) shallower.
pub fn iir_depth(depth: i32, ply: i32) -> (r: i32)
    ensures
        r == (if depth >= trunc_div(ply as int, 4) + 2 {
            depth - (trunc_div(depth as int, 10) + 1)
        } else {
            depth as int
        }),
{
    if depth >= ply / 4 + 2 {
        depth - (depth / 10 + 1)
    } else {
        depth
    }
}

/// The static evaluations of the nodes on the current line, by ply.
pub struct EvalStack {
    pub evals: Vec<i32>,
}

impl EvalStack {
    pub open spec fn wf(self) -> bool {
        self.evals@.len() == EVAL_STACK_LEN
    }

    /// Whether the static evaluation at `ply` beats the one two plies earlier.
    pub open spec fn improving_spec(self, ply: int) -> bool {
        ply > 1 && self.evals@[ply] > self.evals@[ply - 2]
    }

    /// For null move pruning: the static evaluation at `ply` has not fallen by
    /// 100 or more since two plies earlier.
    pub open spec fn nmp_improving_spec(self, ply: int) -> bool {
        ply > 1 ==> self.evals@[ply] - self.evals@[ply - 2] > -100
    }

    /// All evaluations zero.
    pub fn new() -> (s: EvalStack)
        ensures
            s.wf(),
            forall|i: int| 0 <= i < EVAL_STACK_LEN ==> s.evals@[i] == 0,
    {
        let mut evals: Vec<i32> = Vec::new();
        let mut i: usize = 0;
        while i < EVAL_STACK_LEN
            invariant
                i <= EVAL_STACK_LEN,
                evals@.len() == i,
                forall|j: int| 0 <= j < i ==> evals@[j] == 0,
            decreases EVAL_STACK_LEN - i,
        {
            evals.push(0);
            i = i + 1;
        }
        EvalStack { evals }
    }

    /// Records the static evaluation at `ply`.
    pub fn set(&mut self, ply: i32, eval: i32)
        requires
            old(self).wf(),
            0 <= ply < EVAL_STACK_LEN,
        ensures
            final(self).wf(),
            final(self).evals@ == old(self).evals@.update(ply as int, eval),
    {
        self.evals.set(ply as usize, eval);
    }

    pub fn improving(&self, ply: i32) -> (r: bool)
        requires
            self.wf(),
            0 <= ply < EVAL_STACK_LEN,
        ensures
            r == self.improving_spec(ply as int),
    {
        ply > 1 && self.evals[ply as usize] > self.evals[(ply - 2) as usize]
    }

    pub fn nmp_improving(&self, ply: i32) -> (r: bool)
        requires
            self.wf(),
            0 <= ply < EVAL_STACK_LEN,
        ensures
            r == self.nmp_improving_spec(ply as int),
    {
        if ply > 1 {
            (self.evals[ply as usize] as i64) - (self.evals[(ply - 2) as usize] as i64) > -100
        } else {
            true
        }
    }
}

/// Reverse futility pruning: at low depth and out of check, a static
/// evaluation that beats beta by a margin (larger when not improving) settles
/// the node.
pub open spec fn rfp_spec(depth: int, in_check: bool, static_eval: int, improving: bool, beta: int) -> bool {
    depth <= MAX_DEPTH_RFP && !in_check && static_eval - MULTIPLIER_RFP * depth - (if improving {
        0int
    } else {
        30int
    }) >= beta
}

pub fn rfp_prunes(depth: i32, in_check: bool, static_eval: i32, improving: bool, beta: i32) -> (r: bool)
    ensures
        r == rfp_spec(depth as int, in_check, static_eval as int, improving, beta as int),
{
    if depth <= MAX_DEPTH_RFP && !in_check {
        let margin: i64 = if improving {
            0
        } else {
            30
        };
        (static_eval as i64) - (depth as i64) * 80 - margin >= beta as i64
    } else {
        false
    }
}

/// The rooks, bishops and queens of the side to move.
pub open spec fn our_sliders(b: cozy_chess::Board) -> u64 {
    board_colors(b)[board_side(b).to_int()] & (board_pieces(b)[Piece::Rook.to_int()]
        | board_pieces(b)[Piece::Bishop.to_int()] | board_pieces(b)[Piece::Queen.to_int()])
}

/// Null move pruning is tried below the root, out of check, with a sliding
/// piece to move, a static evaluation at or above beta and no sharp fall of
/// the evaluation.
pub fn nmp_applies(
    board: &cozy_chess::Board,
    ply: i32,
    static_eval: i32,
    beta: i32,
    nmp_improving: bool,
) -> (r: bool)
    ensures
        r == (ply > 0 && board_checkers(*board) == 0 && our_sliders(*board) != 0 && static_eval
            >= beta && nmp_improving),
{
    let side = side_to_move(board);
    let ours = colors(board, side);
    let sliding = pieces(board, Piece::Rook) | pieces(board, Piece::Bishop) | pieces(
        board,
        Piece::Queen,
    );
    ply > 0 && checkers(board) == 0 && (ours & sliding) != 0 && static_eval >= beta
        && nmp_improving
}

/// The depth by which a null move search is reduced.
pub fn get_nmp_reduction_amount(depth: i32, diff: i32) -> (r: i32)
    ensures
        r == 2 + trunc_div(depth as int, 3) + trunc_div(diff as int, 128),
{
    2 + (depth / 3) + (diff / 128)
}

/// The knights, bishops, rooks and queens of a board.
pub open spec fn non_pawns(b: cozy_chess::Board) -> u64 {
    board_pieces(b)[Piece::Rook.to_int()] | board_pieces(b)[Piece::Bishop.to_int()]
        | board_pieces(b)[Piece::Queen.to_int()] | board_pieces(b)[Piece::Knight.to_int()]
}

/// The king and pawn endgame extension: the move takes the last piece other
/// than kings and pawns off the board (its squares taken before the move), in
/// a node neither extended for check nor searching its table move first.
pub fn kp_endgame_extension(
    before: &cozy_chess::Board,
    after: &cozy_chess::Board,
    globally_extended: bool,
    staged: bool,
) -> (r: bool)
    ensures
        r == ((occupied_spec(*before) & non_pawns(*before)) != 0 && (occupied_spec(*after)
            & non_pawns(*before)) == 0 && !globally_extended && !staged),
{
    let np = pieces(before, Piece::Rook) | pieces(before, Piece::Bishop) | pieces(
        before,
        Piece::Queen,
    ) | pieces(before, Piece::Knight);
    (occupied(before) & np) != 0 && (occupied(after) & np) == 0 && !globally_extended && !staged
}

/// Late move pruning: out of the PV, at low depth and out of check, a quiet
/// move comes after more moves than a share of the move count (fewer when
/// not improving) and alpha is no lost mate.
pub open spec fn lmp_spec(
    is_pv: bool,
    depth: int,
    quiet: bool,
    alpha: int,
    moves_searched: int,
    move_count: int,
    improving: bool,
    in_check: bool,
) -> bool {
    &&& !is_pv
    &&& depth <= LMP_DEPTH_MAX
    &&& quiet
    &&& alpha > -CHECKMATE_BASE
    &&& moves_searched > trunc_div(move_count, 6) * depth - (if improving {
        0int
    } else {
        3int
    })
    &&& !in_check
}

pub fn lmp_prunes(
    is_pv: bool,
    depth: i32,
    quiet: bool,
    alpha: i32,
    moves_searched: i32,
    move_count: i32,
    improving: bool,
    in_check: bool,
) -> (r: bool)
    ensures
        r == lmp_spec(
            is_pv,
            depth as int,
            quiet,
            alpha as int,
            moves_searched as int,
            move_count as int,
            improving,
            in_check,
        ),
{
    if !is_pv && depth <= LMP_DEPTH_MAX && quiet && alpha > -CHECKMATE_BASE {
        let share = (move_count / 6) as i64;
        let penalty: i64 = if improving {
            0
        } else {
            3
        };
        assert(share * depth >= -0x4000_0000_0000_0000) by (nonlinear_arith)
            requires
                -0x8000_0000 <= share <= 0x8000_0000,
                -0x8000_0000 <= depth <= 0x8000_0000,
        ;
        assert(share * depth <= 0x4000_0000_0000_0000) by (nonlinear_arith)
            requires
                -0x8000_0000 <= share <= 0x8000_0000,
                -0x8000_0000 <= depth <= 0x8000_0000,
        ;
        (moves_searched as i64) > share * (depth as i64) - penalty && !in_check
    } else {
        false
    }
}

/// History pruning: from some depth on, a move whose history is worse than
/// 500 per ply of depth is skipped.
pub fn history_prunes(depth: i32, history: i32) -> (r: bool)
    ensures
        r == (depth >= HISTORY_DEPTH_MIN && history < 0 - 500 * depth),
{
    let d: i64 = depth as i64;
    let limit: i64 = 0 - d * 500;
    depth >= HISTORY_DEPTH_MIN && (history as i64) < limit
}

/// For the passed pawn reduction: `None` unless the move starts from a pawn
/// of the side to move on its sixth or seventh rank in a PV node; then
/// whether that pawn is passed.
pub open spec fn passer_spec(b: cozy_chess::Board, mv: ChessMove, is_pv: bool) -> Option<bool> {
    let side = board_side(b);
    let mine = board_pieces(b)[Piece::Pawn.to_int()] & board_colors(b)[side.to_int()];
    let rank = square_rank(mv.from as int);
    if has(mine, mv.from as int) && (rank == relative_rank(6, side) || rank == relative_rank(5, side))
        && is_pv {
        Some(is_passed(b, side, mv.from as int))
    } else {
        None
    }
}

pub fn passed_pawn_move(board: &cozy_chess::Board, mv: ChessMove, is_pv: bool) -> (r: Option<bool>)
    requires
        mv.from < 64,
        board_pieces(*board).len() == 6,
        board_colors(*board).len() == 2,
    ensures
        r == passer_spec(*board, mv, is_pv),
{
    let side = side_to_move(board);
    let mine = pieces(board, Piece::Pawn) & colors(board, side);
    let rank = mv.from / 8;
    let seventh = crate::chess::rank_relative_to(6, side);
    let sixth = crate::chess::rank_relative_to(5, side);
    if bb_has(mine, mv.from) && (rank == seventh || rank == sixth) && is_pv {
        Some(pawn_is_passed(board, side, mv.from))
    } else {
        None
    }
}

/// The reduction of a late move: less for a good history, the table
/// reduction from the third move on (unless a PV node's loud check), one
/// less in a PV node, one more for an underpromotion deep enough, one less
/// for a passed pawn push and one more for another pawn push, and none at
/// all where that is negative, in check, or for a killer or countermove.
pub open spec fn reduction_spec(
    history: int,
    moves_searched: int,
    is_pv: bool,
    quiet: bool,
    move_is_check: bool,
    lmr: int,
    promotion: Option<Piece>,
    depth: int,
    passer: Option<bool>,
    in_check: bool,
    is_killer: bool,
    is_countermove: bool,
) -> int {
    let r0 = -trunc_div(history, 1500);
    let r1 = if moves_searched >= 2 && (!is_pv || quiet || !move_is_check) {
        r0 + lmr
    } else {
        r0
    };
    let r2 = r1 - (if is_pv {
        1int
    } else {
        0int
    });
    let r3 = if promotion matches Some(p) && p != Piece::Queen && depth >= UNDERPROMO_REDUC_DEPTH {
        r2 + 1
    } else {
        r2
    };
    let r4 = match passer {
        Some(true) => r3 - 1,
        Some(false) => r3 + 1,
        None => r3,
    };
    if r4 < 0 || in_check || is_killer || is_countermove {
        0
    } else {
        r4
    }
}

pub fn late_move_reduction(
    history: i32,
    moves_searched: i32,
    is_pv: bool,
    quiet: bool,
    move_is_check: bool,
    lmr: u8,
    promotion: Option<Piece>,
    depth: i32,
    passer: Option<bool>,
    in_check: bool,
    is_killer: bool,
    is_countermove: bool,
) -> (r: i32)
    ensures
        r == reduction_spec(
            history as int,
            moves_searched as int,
            is_pv,
            quiet,
            move_is_check,
            lmr as int,
            promotion,
            depth as int,
            passer,
            in_check,
            is_killer,
            is_countermove,
        ),
        r >= 0,
{
    let mut reduction: i32 = 0;
    reduction -= history / 1500;
    if moves_searched >= 2 && (!is_pv || quiet || !move_is_check) {
        reduction += lmr as i32;
    }
    if is_pv {
        reduction -= 1;
    }
    match promotion {
        Some(p) => {
            if p != Piece::Queen && depth >= UNDERPROMO_REDUC_DEPTH {
                reduction += 1;
            }
        },
        None => {},
    }
    match passer {
        Some(true) => {
            reduction -= 1;
        },
        Some(false) => {
            reduction += 1;
        },
        None => {},
    }
    if reduction < 0 || in_check || is_killer || is_countermove {
        reduction = 0;
    }
    reduction
}

/// Pruning the rest of a node after a quiet move that did not raise alpha:
/// out of the PV, at low depth, for a move that gives no check, is neither
/// killer nor countermove, and outside the table move stage.
pub fn spp_applies(
    is_pv: bool,
    depth: i32,
    move_is_check: bool,
    is_killer: bool,
    is_countermove: bool,
    quiet: bool,
    staged: bool,
) -> (r: bool)
    ensures
        r == (!is_pv && depth <= SPP_DEPTH_CAP && !move_is_check && !is_killer && !is_countermove
            && quiet && !staged),
{
    !is_pv && depth <= SPP_DEPTH_CAP && !move_is_check && !is_killer && !is_countermove && quiet
        && !staged
}

/// What a searched move's score does to the node.
#[derive(Clone, Copy, Debug, PartialEq, Eq, Structural)]
pub enum Step {
    /// No better than the best so far.
    Worse,
    /// The new best, still at or below alpha.
    Better,
    /// The new best and the new alpha, below beta: an exact score.
    Raised,
    /// The new best at or above beta: the node fails high.
    Cutoff,
}

pub open spec fn step_spec(best: int, alpha: int, beta: int, value: int) -> Step {
    if value <= best {
        Step::Worse
    } else if value <= alpha {
        Step::Better
    } else if value < beta {
        Step::Raised
    } else {
        Step::Cutoff
    }
}

/// How a move scoring `value` changes a node whose best score is `best`
/// within the bounds `alpha` and `beta`.
pub fn step(best: i32, alpha: i32, beta: i32, value: i32) -> (r: Step)
    ensures
        r == step_spec(best as int, alpha as int, beta as int, value as int),
{
    if value > best {
        if value > alpha {
            if value >= beta {
                Step::Cutoff
            } else {
                Step::Raised
            }
        } else {
            Step::Better
        }
    } else {
        Step::Worse
    }
}

/// The node's alpha after a step: raised to the value when the value beat it.
pub open spec fn alpha_after(s: Step, alpha: int, value: int) -> int {
    match s {
        Step::Raised | Step::Cutoff => value,
        _ => alpha,
    }
}

/// A searched move never lowers alpha, and the node fails high exactly when
/// the raised alpha reaches beta.
pub proof fn lemma_step_monotone(best: int, alpha: int, beta: int, value: int)
    ensures
        alpha_after(step_spec(best, alpha, beta, value), alpha, value) >= alpha,
        (step_spec(best, alpha, beta, value) == Step::Cutoff) <==> (value > best && value > alpha
            && alpha_after(step_spec(best, alpha, beta, value), alpha, value) >= beta),
        step_spec(best, alpha, beta, value) != Step::Worse ==> value > best,
{
}

/// Whether a node's result corrects the static evaluation: its best move is
/// quiet and it failed low below, or high above, the static evaluation.
pub fn corrhist_applies(best_quiet: Option<bool>, kind: NodeKind, score: i32, static_eval: i32) -> (r: bool)
    ensures
        r == (best_quiet == Some(true) && ((kind == NodeKind::UpperBound && score < static_eval) || (
        kind == NodeKind::LowerBound && score > static_eval))),
{
    match best_quiet {
        Some(true) => (kind == NodeKind::UpperBound && score < static_eval) || (kind
            == NodeKind::LowerBound && score > static_eval),
        _ => false,
    }
}

/// Moves to mate for a mate score: a mate delivered at ply `p` is mate in
/// `(p + 1) / 2`, one suffered at ply `p` is mate in minus `p / 2`.
pub open spec fn mate_in_spec(score: int) -> int {
    if score > 0 {
        trunc_div(CHECKMATE_BASE - score + 1, 2)
    } else {
        trunc_div(-(score + CHECKMATE_BASE), 2)
    }
}

pub fn mate_in(score: i32) -> (r: i32)
    ensures
        r == mate_in_spec(score as int),
{
    if score > 0 {
        (CHECKMATE_BASE - score + 1) / 2
    } else {
        (-(score + CHECKMATE_BASE)) / 2
    }
}

/// A mate found `p` plies from the root is reported as mate in the number of
/// the winner's moves, `(p + 1) / 2`, or, suffered, as minus the loser's
/// moves, `p / 2`.
pub proof fn lemma_mate_in_counts_moves(p: int)
    requires
        0 <= p < CHECKMATE_BASE,
    ensures
        mate_in_spec(CHECKMATE_BASE - p) == (p + 1) / 2,
        mate_in_spec(-CHECKMATE_BASE + p) == -(p / 2),
{
}

/// The principal variation that the table holds from a board: the table
/// move of each position while it is legal, for `depth` moves at most and no
/// further than ply 50.
pub open spec fn pv_spec(b: cozy_chess::Board, tt: TT, depth: int, ply: int) -> Seq<ChessMove>
    decreases 51 - ply,
{
    if depth == 0 || ply > 50 || ply < 0 {
        Seq::empty()
    } else {
        match tt.slots()[tt.slot_index(crate::board::board_hash(b))].probe(
            crate::board::board_hash(b),
            ply,
        ) {
            Some(e) => match e.best_move {
                Some(mv) => if board_legal_moves(b).contains(mv) {
                    seq![mv] + pv_spec(board_after(b, mv), tt, depth - 1, ply + 1)
                } else {
                    Seq::empty()
                },
                None => Seq::empty(),
            },
            None => Seq::empty(),
        }
    }
}

/// Reads the principal variation from the table, playing its moves on the
/// board.
pub fn get_pv(board: &mut cozy_chess::Board, tt: &TT, depth: i32, ply: i32) -> (r: Vec<ChessMove>)
    requires
        tt.wf(),
        ply >= 0,
        board_valid(*old(board)),
    ensures
        r@ == pv_spec(*old(board), *tt, depth as int, ply as int),
{
    let mut r: Vec<ChessMove> = Vec::new();
    let mut d: i64 = depth as i64;
    let mut p = ply;
    while d != 0 && p <= 50
        invariant
            tt.wf(),
            p >= 0,
            board_valid(*board),
            d as int == depth - (p - ply),
            r@ + pv_spec(*board, *tt, d as int, p as int) == pv_spec(
                *old(board),
                *tt,
                depth as int,
                ply as int,
            ),
        decreases 51 - p,
    {
        let ghost b0 = *board;
        match tt.find(board, p) {
            Some(e) => {
                match e.best_move {
                    Some(mv) => {
                        if mv.from < 64 && mv.to < 64 && is_legal(board, mv) {
                            play_unchecked(board, mv);
                            let ghost prev = r@;
                            r.push(mv);
                            assert(r@ + pv_spec(*board, *tt, d - 1, p + 1) =~= prev + (seq![mv]
                                + pv_spec(board_after(b0, mv), *tt, d - 1, p + 1)));
                            d = d - 1;
                            p = p + 1;
                        } else {
                            proof {
                                if board_legal_moves(b0).contains(mv) {
                                    let k = choose|k: int|
                                        0 <= k < board_legal_moves(b0).len()
                                            && board_legal_moves(b0)[k] == mv;
                                    assert(r@ + pv_spec(b0, *tt, d as int, p as int) =~= r@);
                                }
                            }
                            assert(r@ + pv_spec(*board, *tt, d as int, p as int) =~= r@);
                            return r;
                        }
                    },
                    None => {
                        assert(r@ + pv_spec(*board, *tt, d as int, p as int) =~= r@);
                        return r;
                    },
                }
            },
            None => {
                assert(r@ + pv_spec(*board, *tt, d as int, p as int) =~= r@);
                return r;
            },
        }
    }
    assert(r@ + pv_spec(*board, *tt, d as int, p as int) =~= r@);
    r
}


/// The plies for which the move orderer keeps its continuation history.
pub const SORTER_PLIES: i32 = 256;

/// Reverse futility pruning prunes more the better the static evaluation and
/// the lower beta, less the deeper the node; it never prunes in check or
/// beyond `MAX_DEPTH_RFP`, and an improving position prunes whenever one that
/// is not would.
pub proof fn lemma_rfp_monotone(
    depth: int,
    depth2: int,
    in_check: bool,
    static_eval: int,
    static_eval2: int,
    improving: bool,
    beta: int,
    beta2: int,
)
    requires
        0 <= depth2 <= depth,
        static_eval <= static_eval2,
        beta2 <= beta,
    ensures
        rfp_spec(depth, in_check, static_eval, improving, beta) ==> rfp_spec(
            depth2,
            in_check,
            static_eval2,
            improving,
            beta2,
        ),
        rfp_spec(depth, in_check, static_eval, false, beta) ==> rfp_spec(depth, in_check, static_eval, true, beta),
        in_check ==> !rfp_spec(depth, in_check, static_eval, improving, beta),
        depth > MAX_DEPTH_RFP ==> !rfp_spec(depth, in_check, static_eval, improving, beta),
{
}

/// Late move pruning only ever skips quiet moves of non-PV nodes out of check
/// at low depth, and skips more the later the move comes.
pub proof fn lemma_lmp_scope(
    is_pv: bool,
    depth: int,
    quiet: bool,
    alpha: int,
    moves_searched: int,
    moves_searched2: int,
    move_count: int,
    improving: bool,
    in_check: bool,
)
    requires
        moves_searched <= moves_searched2,
    ensures
        lmp_spec(is_pv, depth, quiet, alpha, moves_searched, move_count, improving, in_check) ==> !is_pv
            && !in_check && quiet && depth <= LMP_DEPTH_MAX && alpha > -CHECKMATE_BASE,
        lmp_spec(is_pv, depth, quiet, alpha, moves_searched, move_count, improving, in_check) ==> lmp_spec(
            is_pv,
            depth,
            quiet,
            alpha,
            moves_searched2,
            move_count,
            improving,
            in_check,
        ),
{
}

/// A late move reduction is zero in check, for a killer and for a
/// countermove; otherwise it never lessens when the table reduction grows.
pub proof fn lemma_reduction_exemptions(
    history: int,
    moves_searched: int,
    is_pv: bool,
    quiet: bool,
    move_is_check: bool,
    lmr: int,
    lmr2: int,
    promotion: Option<Piece>,
    depth: int,
    passer: Option<bool>,
    in_check: bool,
    is_killer: bool,
    is_countermove: bool,
)
    requires
        lmr <= lmr2,
    ensures
        in_check || is_killer || is_countermove ==> reduction_spec(
            history,
            moves_searched,
            is_pv,
            quiet,
            move_is_check,
            lmr,
            promotion,
            depth,
            passer,
            in_check,
            is_killer,
            is_countermove,
        ) == 0,
        reduction_spec(
            history,
            moves_searched,
            is_pv,
            quiet,
            move_is_check,
            lmr,
            promotion,
            depth,
            passer,
            in_check,
            is_killer,
            is_countermove,
        ) <= reduction_spec(
            history,
            moves_searched,
            is_pv,
            quiet,
            move_is_check,
            lmr2,
            promotion,
            depth,
            passer,
            in_check,
            is_killer,
            is_countermove,
        ),
{
}


/// The deepest ply of quiescence search. A line of captures takes a piece off
/// the board at every ply, so it ends long before this below the deepest
/// alpha-beta node (ply 300).
pub const QSEARCH_PLY_CAP: i32 = 512;

/// The node count after one more node, wrapping around.
pub open spec fn next_count(n: u64) -> u64 {
    if n == u64::MAX {
        0
    } else {
        (n + 1) as u64
    }
}

/// What the table holds for a position at a ply.
pub open spec fn table_entry(tt: TT, b: cozy_chess::Board, ply: int) -> Option<TTEntry> {
    tt.slots()[tt.slot_index(board_hash(b))].probe(board_hash(b), ply)
}

/// The best move that the table holds for a position, if any.
pub open spec fn table_move(tt: TT, b: cozy_chess::Board, ply: int) -> Option<ChessMove> {
    match table_entry(tt, b, ply) {
        Some(e) => e.best_move,
        None => None,
    }
}

/// A table entry that settles a node with these bounds.
pub open spec fn settles_node(e: Option<TTEntry>, alpha: int, beta: int) -> bool {
    e is Some && bound_settles(e.unwrap().node_kind, e.unwrap().eval as int, alpha, beta)
}

/// Mate distance pruning applies: alpha is bounded and a mate delivered at
/// this ply could not beat it.
pub open spec fn mate_cut(alpha: int, ply: int) -> bool {
    alpha != -i32::MAX && CHECKMATE_BASE - ply <= alpha
}

/// The ply a position in check is extended by.
pub open spec fn check_extension(b: cozy_chess::Board) -> int {
    if board_checkers(b) != 0 {
        1
    } else {
        0
    }
}

/// The hash occurs among the earlier positions, the last (the position
/// itself) left out.
pub open spec fn repeats(past: Seq<u64>, hash: u64) -> bool {
    exists|i: int| 0 <= i < past.len() - 1 && past[i] == hash
}

/// The most by which the correction histories move a static evaluation: each
/// history entry is a running average within 81 * 280 in either direction,
/// read back divided by 198, by 202 (twice) and by 289.
pub const CORRECTION_LIMIT: i32 = 512;

/// What the search asks of the engine around it: whether to stop, the
/// correction of a static evaluation kept by the correction histories, and
/// the update of those histories with a node's result. Nothing is assumed of
/// the answers: the search is verified for every value they take.
pub trait SearchContext {
    /// Whether the search has been told to stop.
    fn aborted(&mut self) -> bool;

    /// The correction, in centipawns, of the static evaluation of a position.
    fn correction(&mut self, bw: &BoardWrapper) -> i32;

    /// Blends a node's result into the correction histories of its position.
    fn record_correction(&mut self, bw: &BoardWrapper, depth: i32, best_alpha: i32, static_eval: i32);
}

/// The late move reductions by depth and moves searched, 64 by 64, row by row.
pub struct LmrTable {
    pub table: Vec<u8>,
}

impl LmrTable {
    pub open spec fn wf(self) -> bool {
        self.table@.len() == 4096
    }
}

/// A depth or move count as a row or column of the reduction table: values
/// beyond 63, and negative ones (which wrap to a huge `usize`), take the last.
pub open spec fn lmr_index(v: int) -> int {
    if 0 <= v <= 63 {
        v
    } else {
        63
    }
}

/// The reduction for a late move.
pub fn get_lmr_reduction_amount(lmr: &LmrTable, depth: i32, moves_searched: i32) -> (r: u8)
    requires
        lmr.wf(),
    ensures
        r == lmr.table@[lmr_index(depth as int) * 64 + lmr_index(moves_searched as int)],
{
    let d: usize = if 0 <= depth && depth <= 63 {
        depth as usize
    } else {
        63
    };
    let m: usize = if 0 <= moves_searched && moves_searched <= 63 {
        moves_searched as usize
    } else {
        63
    };
    lmr.table[d * 64 + m]
}

/// The static evaluation corrected by the histories: the sum, with the
/// correction held within `CORRECTION_LIMIT` and the sum within the scores
/// the search negates safely.
fn corrected_eval<C: SearchContext>(ctx: &mut C, bw: &BoardWrapper) -> (r: i32)
    requires
        board_valid(bw.board),
    ensures
        -i32::MAX <= r <= i32::MAX,
        -i32::MAX + CORRECTION_LIMIT <= evaluate_spec(bw.board) <= i32::MAX - CORRECTION_LIMIT
            ==> evaluate_spec(bw.board) - CORRECTION_LIMIT <= r <= evaluate_spec(bw.board)
            + CORRECTION_LIMIT,
{
    let base = evaluate(&bw.board);
    let c = ctx.correction(bw);
    let c: i32 = if c > CORRECTION_LIMIT {
        CORRECTION_LIMIT
    } else if c < -CORRECTION_LIMIT {
        -CORRECTION_LIMIT
    } else {
        c
    };
    let sum: i64 = base as i64 + c as i64;
    if sum > i32::MAX as i64 {
        i32::MAX
    } else if sum < -(i32::MAX as i64) {
        -i32::MAX
    } else {
        sum as i32
    }
}

/// Stores a node's result in the table: not for a node without a best move,
/// nor for a score that, stored, would leave `TT_SCORE_LIMIT`.
fn store_node(
    tt: &mut TT,
    best_move: Option<ChessMove>,
    eval: i32,
    position: u64,
    ply: i32,
    depth: i32,
    kind: NodeKind,
)
    requires
        old(tt).wf(),
        old(tt).scores_bounded(),
        0 <= ply <= QSEARCH_PLY_CAP,
        best_move matches Some(m) ==> m.from < 64 && m.to < 64,
    ensures
        final(tt).wf(),
        final(tt).scores_bounded(),
        (best_move is Some && -TT_SCORE_LIMIT <= remove_mate_spec(eval as int, ply as int)
            <= TT_SCORE_LIMIT) ==> final(tt).slots() == old(tt).slots().update(
            old(tt).slot_index(position),
            crate::search::tt::TTSlot::stored(
                best_move.unwrap(),
                remove_mate_spec(eval as int, ply as int) as i32,
                position,
                depth,
                kind,
            ),
        ),
        !(best_move is Some && -TT_SCORE_LIMIT <= remove_mate_spec(eval as int, ply as int)
            <= TT_SCORE_LIMIT) ==> *final(tt) == *old(tt),
{
    if best_move.is_some() {
        let stored: i64 = if eval < -CHECKMATE_DEFINITE {
            eval as i64 - ply as i64
        } else if eval > CHECKMATE_DEFINITE {
            eval as i64 + ply as i64
        } else {
            eval as i64
        };
        if -(TT_SCORE_LIMIT as i64) <= stored && stored <= TT_SCORE_LIMIT as i64 {
            tt.insert(best_move, eval, position, ply, depth, kind);
        }
    }
}


/// The table entry that `get_lmr_reduction_amount` reads.
pub open spec fn get_lmr_spec(lmr: LmrTable, depth: i32, moves_searched: i32) -> u8 {
    lmr.table@[lmr_index(depth as int) * 64 + lmr_index(moves_searched as int)]
}

/// A late move reduction is never negative and no larger than the history
/// share plus the table entry and two.
proof fn lemma_reduction_bound(
    history: int,
    moves_searched: int,
    is_pv: bool,
    quiet: bool,
    move_is_check: bool,
    lmr: int,
    promotion: Option<Piece>,
    depth: int,
    passer: Option<bool>,
    in_check: bool,
    is_killer: bool,
    is_countermove: bool,
)
    requires
        i32::MIN <= history <= i32::MAX,
        0 <= lmr < 256,
    ensures
        0 <= reduction_spec(
            history,
            moves_searched,
            is_pv,
            quiet,
            move_is_check,
            lmr,
            promotion,
            depth,
            passer,
            in_check,
            is_killer,
            is_countermove,
        ) <= 2_000_000,
{
    if history >= 0 {
        assert(0 <= history / 1500 <= 1_500_000) by (nonlinear_arith)
            requires
                0 <= history <= i32::MAX,
        ;
    } else {
        assert(0 <= (-history) / 1500 <= 1_500_000) by (nonlinear_arith)
            requires
                0 < -history <= 0x8000_0000,
        ;
    }
}

/// Move generation from a position with a legal move, the hash move kept,
/// hands out at least one move.
proof fn lemma_nonempty_moves(
    sorter: crate::movegen::movesorter::MoveSorter,
    b: cozy_chess::Board,
    ply: int,
    last_move: Option<ChessMove>,
    r: Seq<SortedMove>,
)
    requires
        board_legal_moves(b).len() > 0,
        r == crate::movegen::movesorter::sort_desc(
            sorter.scored_list(
                crate::movegen::movegen::pick_moves(board_legal_moves(b), their_pieces(b), None, false, true)
                    + crate::movegen::movegen::pick_moves(
                    board_legal_moves(b),
                    their_pieces(b),
                    None,
                    false,
                    false,
                ),
                None,
                b,
                ply,
                last_move,
            ),
        ),
    ensures
        r.len() > 0,
{
    lemma_move_gen_moves(sorter, b, None, ply, false, last_move);
    lemma_unskipped_all(board_legal_moves(b));
    assert(moves_of(r).len() == r.len());
    moves_of(r).to_multiset_ensures();
    board_legal_moves(b).to_multiset_ensures();
}

/// With no hash move to skip, every move is kept.
proof fn lemma_unskipped_all(moves: Seq<ChessMove>)
    ensures
        unskipped(moves, None, false) == moves,
    decreases moves.len(),
{
    if moves.len() > 0 {
        lemma_unskipped_all(moves.drop_last());
        assert(moves.drop_last().push(moves.last()) =~= moves);
    }
}

/// The negamax search of a node and its move loop.
pub struct Searcher {
    pub time_control: TimeControl,
    pub movegen: MoveGen,
    pub nodes: u64,
    pub evals: EvalStack,
    pub lmr: LmrTable,
}

impl Searcher {
    pub open spec fn wf(self) -> bool {
        &&& self.movegen.sorter.wf()
        &&& self.evals.wf()
        &&& self.lmr.wf()
    }

    /// Only the node count moved on: a node settled before any move or table
    /// was touched.
    pub open spec fn settled_from(self, before: Searcher) -> bool {
        &&& self.nodes == next_count(before.nodes)
        &&& self.time_control == before.time_control
        &&& self.movegen == before.movegen
        &&& self.evals == before.evals
        &&& self.lmr == before.lmr
    }

    fn count_node(&mut self)
        ensures
            final(self).nodes == next_count(old(self).nodes),
            final(self).time_control == old(self).time_control,
            final(self).movegen == old(self).movegen,
            final(self).evals == old(self).evals,
            final(self).lmr == old(self).lmr,
    {
        self.nodes = if self.nodes == u64::MAX {
            0
        } else {
            self.nodes + 1
        };
    }

    /// The quiescence search: asks whether to stop (only when the depth limit
    /// is above 1), then searches the node as `qsearch_node` does. A search
    /// with a depth limit of at most 1 always gives a result; `None` only
    /// comes of a stop request.
    pub fn qsearch<C: SearchContext>(
        &mut self,
        ctx: &mut C,
        tt: &mut TT,
        boardwrapper: &BoardWrapper,
        alpha: i32,
        beta: i32,
        ply: i32,
    ) -> (r: Option<(Option<ChessMove>, Eval)>)
        requires
            old(self).wf(),
            old(tt).wf(),
            old(tt).scores_bounded(),
            board_valid(boardwrapper.board),
            0 <= ply <= QSEARCH_PLY_CAP,
            -i32::MAX <= alpha < beta <= i32::MAX,
        ensures
            final(self).wf(),
            final(tt).wf(),
            final(tt).scores_bounded(),
            final(self).time_control == old(self).time_control,
            old(self).time_control.depth <= 1 ==> r is Some,
            r is None ==> old(self).time_control.depth > 1,
            r matches Some((_, e)) ==> -i32::MAX <= e.score <= i32::MAX,
            r matches Some((Some(m), _)) ==> table_move(*old(tt), boardwrapper.board, ply as int)
                == Some(m) || (board_legal_moves(boardwrapper.board).contains(m) && capture_searchable(
                boardwrapper.board,
                m,
                table_move(*old(tt), boardwrapper.board, ply as int),
            )),
            r is Some && board_status(boardwrapper.board) == GameStatus::Won ==> r == Some(
                (None::<ChessMove>, Eval { score: (-CHECKMATE_BASE + ply) as i32, mate: true }),
            ),
            r is Some && board_status(boardwrapper.board) == GameStatus::Drawn ==> r == Some(
                (None::<ChessMove>, Eval { score: DRAW, mate: false }),
            ),
        decreases QSEARCH_PLY_CAP - ply, 2int,
    {
        let stopped = self.time_control.depth > 1 && ctx.aborted();
        self.qsearch_node(stopped, ctx, tt, boardwrapper, alpha, beta, ply)
    }

    /// A quiescence node once it is known whether to stop: nothing at all
    /// when stopped; the end of the game; otherwise the stand-pat score (the
    /// static evaluation with its correction) and `qsearch_stand`.
    pub fn qsearch_node<C: SearchContext>(
        &mut self,
        stopped: bool,
        ctx: &mut C,
        tt: &mut TT,
        boardwrapper: &BoardWrapper,
        alpha: i32,
        beta: i32,
        ply: i32,
    ) -> (r: Option<(Option<ChessMove>, Eval)>)
        requires
            old(self).wf(),
            old(tt).wf(),
            old(tt).scores_bounded(),
            board_valid(boardwrapper.board),
            0 <= ply <= QSEARCH_PLY_CAP,
            -i32::MAX <= alpha < beta <= i32::MAX,
            stopped ==> old(self).time_control.depth > 1,
        ensures
            final(self).wf(),
            final(tt).wf(),
            final(tt).scores_bounded(),
            final(self).time_control == old(self).time_control,
            stopped ==> r is None && *final(self) == *old(self) && *final(tt) == *old(tt),
            !stopped && old(self).time_control.depth <= 1 ==> r is Some,
            r is None ==> old(self).time_control.depth > 1,
            r matches Some((_, e)) ==> -i32::MAX <= e.score <= i32::MAX,
            r matches Some((Some(m), _)) ==> table_move(*old(tt), boardwrapper.board, ply as int)
                == Some(m) || (board_legal_moves(boardwrapper.board).contains(m) && capture_searchable(
                boardwrapper.board,
                m,
                table_move(*old(tt), boardwrapper.board, ply as int),
            )),
            !stopped && board_status(boardwrapper.board) == GameStatus::Won ==> r == Some(
                (None::<ChessMove>, Eval { score: (-CHECKMATE_BASE + ply) as i32, mate: true }),
            ) && final(self).settled_from(*old(self)) && *final(tt) == *old(tt),
            !stopped && board_status(boardwrapper.board) == GameStatus::Drawn ==> r == Some(
                (None::<ChessMove>, Eval { score: DRAW, mate: false }),
            ) && final(self).settled_from(*old(self)) && *final(tt) == *old(tt),
        decreases QSEARCH_PLY_CAP - ply, 1int,
    {
        if stopped {
            return None;
        }
        self.count_node();

        match terminal_eval(&boardwrapper.board, ply) {
            Some(e) => {
                return Some((None, e));
            },
            None => {},
        }

        let stand_pat = corrected_eval(ctx, boardwrapper);
        self.qsearch_stand(ctx, tt, boardwrapper, stand_pat, alpha, beta, ply)
    }

    /// A quiescence node from its stand-pat score: failing hard at beta when
    /// the stand pat reaches it; otherwise alpha rises to the stand pat, a
    /// settling table entry gives its score, and the captures are searched in
    /// order until one that scores below zero (a capture that loses material
    /// by exchange and is neither the hash move nor a queen promotion).
    pub fn qsearch_stand<C: SearchContext>(
        &mut self,
        ctx: &mut C,
        tt: &mut TT,
        boardwrapper: &BoardWrapper,
        stand_pat: i32,
        alpha: i32,
        beta: i32,
        ply: i32,
    ) -> (r: Option<(Option<ChessMove>, Eval)>)
        requires
            old(self).wf(),
            old(tt).wf(),
            old(tt).scores_bounded(),
            board_valid(boardwrapper.board),
            0 <= ply <= QSEARCH_PLY_CAP,
            -i32::MAX <= alpha < beta <= i32::MAX,
            -i32::MAX <= stand_pat <= i32::MAX,
        ensures
            final(self).wf(),
            final(tt).wf(),
            final(tt).scores_bounded(),
            final(self).time_control == old(self).time_control,
            old(self).time_control.depth <= 1 ==> r is Some,
            r is None ==> old(self).time_control.depth > 1,
            r matches Some((_, e)) ==> -i32::MAX <= e.score <= i32::MAX,
            r matches Some((Some(m), _)) ==> table_move(*old(tt), boardwrapper.board, ply as int)
                == Some(m) || (board_legal_moves(boardwrapper.board).contains(m) && capture_searchable(
                boardwrapper.board,
                m,
                table_move(*old(tt), boardwrapper.board, ply as int),
            )),
            stand_pat >= beta ==> r == Some((None::<ChessMove>, Eval { score: beta, mate: false }))
                && *final(self) == *old(self) && *final(tt) == *old(tt),
            stand_pat < beta && ply >= QSEARCH_PLY_CAP ==> r == Some(
                (None::<ChessMove>, Eval { score: stand_pat, mate: false }),
            ) && *final(tt) == *old(tt),
            stand_pat < beta && ply < QSEARCH_PLY_CAP && settles_node(
                table_entry(*old(tt), boardwrapper.board, ply as int),
                if alpha < stand_pat {
                    stand_pat as int
                } else {
                    alpha as int
                },
                beta as int,
            ) ==> r == Some(
                (
                    table_entry(*old(tt), boardwrapper.board, ply as int).unwrap().best_move,
                    entry_eval(table_entry(*old(tt), boardwrapper.board, ply as int).unwrap()),
                ),
            ) && *final(tt) == *old(tt),
            stand_pat < beta && ply < QSEARCH_PLY_CAP && table_entry(*old(tt), boardwrapper.board, ply as int)
                is None && captures(board_legal_moves(boardwrapper.board), their_pieces(boardwrapper.board)).len()
                == 0 ==> r == Some((None::<ChessMove>, Eval { score: stand_pat, mate: false })) && *final(tt)
                == *old(tt),
        decreases QSEARCH_PLY_CAP - ply, 0int,
    {
        let mut cur_alpha = alpha;
        let sp = Eval::new(stand_pat, false);
        if sp.score >= beta {
            return Some((None, Eval::new(beta, false)));
        }
        if cur_alpha < sp.score {
            cur_alpha = sp.score;
        }
        if ply >= QSEARCH_PLY_CAP {
            return Some((None, sp));
        }

        let ghost tt0 = *tt;
        let ghost sorter0 = self.movegen.sorter;
        let found = tt.find(&boardwrapper.board, ply);
        let tt_move = match found {
            Some(table_find) => {
                match tt_bound_cutoff(&table_find, cur_alpha, beta) {
                    Some(e) => {
                        return Some((table_find.best_move, e));
                    },
                    None => {},
                }
                table_find.best_move
            },
            None => None,
        };
        assert(tt_move == table_move(tt0, boardwrapper.board, ply as int));
        let move_list = self.movegen.qmove_gen(&boardwrapper.board, tt_move, ply);
        proof {
            if found is None {
                lemma_qmove_gen_moves(sorter0, boardwrapper.board, None, ply as int);
                let legal = board_legal_moves(boardwrapper.board);
                let their = their_pieces(boardwrapper.board);
                moves_of(move_list@).to_multiset_ensures();
                captures(legal, their).to_multiset_ensures();
                assert(moves_of(move_list@).len() == move_list@.len());
            }
        }

        if move_list.len() == 0 {
            return Some((None, sp));
        }

        let mut best_move: Option<ChessMove> = None;
        let mut eval = sp;
        let mut tt_nodetype = NodeKind::UpperBound;
        let mut i: usize = 0;
        while i < move_list.len()
            invariant
                self.wf(),
                self.time_control == old(self).time_control,
                tt.wf(),
                tt.scores_bounded(),
                board_valid(boardwrapper.board),
                0 <= ply < QSEARCH_PLY_CAP,
                -i32::MAX <= cur_alpha < beta <= i32::MAX,
                -i32::MAX <= eval.score <= i32::MAX,
                tt_move == table_move(tt0, boardwrapper.board, ply as int),
                tt0 == *old(tt),
                stand_pat < beta,
                !settles_node(table_entry(tt0, boardwrapper.board, ply as int), if alpha < stand_pat {
                    stand_pat as int
                } else {
                    alpha as int
                }, beta as int),
                !(table_entry(tt0, boardwrapper.board, ply as int) is None && captures(
                    board_legal_moves(boardwrapper.board),
                    their_pieces(boardwrapper.board),
                ).len() == 0),
                forall|k: int| 0 <= k < move_list@.len() ==> sound_move(boardwrapper.board, #[trigger] move_list@[k]),
                forall|k: int|
                    0 <= k < move_list@.len() && (#[trigger] move_list@[k]).importance >= 0 ==> capture_searchable(
                        boardwrapper.board,
                        move_list@[k].mv,
                        tt_move,
                    ),
                best_move matches Some(m) ==> m.from < 64 && m.to < 64 && board_legal_moves(
                    boardwrapper.board,
                ).contains(m) && capture_searchable(boardwrapper.board, m, tt_move),
            decreases move_list.len() - i,
        {
            let mut sm = move_list[i];
            if sm.importance < 0 {
                break;
            }
            let mv = sm.mv;
            proof {
                assert(sound_move(boardwrapper.board, move_list@[i as int]));
                assert(capture_searchable(boardwrapper.board, mv, tt_move));
                let b = boardwrapper.board;
                let k = choose|k: int| 0 <= k < board_legal_moves(b).len() && board_legal_moves(b)[k] == mv;
                assert(board_legal_moves(b)[k] == mv);
                if sm.movetype == MoveType::Loud && piece_on_spec(b, mv.to as int) is Some {
                    lemma_capture_count(b, mv.to as int);
                }
            }
            let mut board_wrapper_cache = boardwrapper.clone();
            board_wrapper_cache.play_unchecked(&mut sm);

            let child = match self.qsearch(ctx, tt, &board_wrapper_cache, -beta, -cur_alpha, ply + 1) {
                Some((_, c)) => c,
                None => {
                    return None;
                },
            };
            let value = Eval { score: -child.score, mate: child.mate };

            match step(eval.score, cur_alpha, beta, value.score) {
                Step::Worse => {},
                Step::Better => {
                    eval = value;
                    best_move = Some(mv);
                    tt_nodetype = NodeKind::UpperBound;
                },
                Step::Raised => {
                    eval = value;
                    best_move = Some(mv);
                    cur_alpha = value.score;
                    tt_nodetype = NodeKind::Exact;
                },
                Step::Cutoff => {
                    eval = value;
                    best_move = Some(mv);
                    tt_nodetype = NodeKind::LowerBound;
                    break;
                },
            }
            i = i + 1;
        }
        store_node(tt, best_move, eval.score, hash(&boardwrapper.board), ply, 0, tt_nodetype);
        Some((best_move, eval))
    }

    /// The alpha-beta search (principal variation search in negamax form):
    /// asks whether to stop (only when the depth limit is above 1), then
    /// searches the node as `search_node` does. A search with a depth limit of
    /// at most 1 always gives a result; `None` only comes of a stop request.
    #[verifier::rlimit(50)]
    pub fn search<C: SearchContext>(
        &mut self,
        ctx: &mut C,
        tt: &mut TT,
        boardwrapper: &BoardWrapper,
        depth: i32,
        ply: i32,
        alpha: i32,
        beta: i32,
        past_positions: &mut Vec<u64>,
        last_move: Option<ChessMove>,
    ) -> (r: Option<(Option<ChessMove>, Eval)>)
        requires
            old(self).wf(),
            old(tt).wf(),
            old(tt).scores_bounded(),
            board_valid(boardwrapper.board),
            0 <= ply <= EVAL_STACK_LEN,
            -i32::MAX <= alpha < beta <= i32::MAX,
            -0x0800_0000 <= depth <= 1000 + ply,
            last_move matches Some(lm) ==> lm.from < 64 && lm.to < 64,
        ensures
            final(self).wf(),
            final(tt).wf(),
            final(tt).scores_bounded(),
            final(self).time_control == old(self).time_control,
            old(self).time_control.depth <= 1 ==> r is Some,
            r is None ==> old(self).time_control.depth > 1,
            r matches Some((_, e)) ==> -i32::MAX <= e.score <= i32::MAX,
            r is Some ==> final(past_positions)@ == old(past_positions)@,
            r matches Some((Some(m), _)) ==> table_move(*old(tt), boardwrapper.board, ply as int)
                == Some(m) || board_legal_moves(boardwrapper.board).contains(m),
            r is Some && mate_cut(alpha as int, ply as int) ==> r == Some(
                (None::<ChessMove>, Eval { score: (CHECKMATE_BASE - ply) as i32, mate: true }),
            ) && final(self).settled_from(*old(self)) && *final(tt) == *old(tt),
            r is Some && !mate_cut(alpha as int, ply as int) && board_status(boardwrapper.board)
                == GameStatus::Won ==> r == Some(
                (None::<ChessMove>, Eval { score: (-CHECKMATE_BASE + ply) as i32, mate: true }),
            ) && final(self).settled_from(*old(self)) && *final(tt) == *old(tt),
            r is Some && !mate_cut(alpha as int, ply as int) && board_status(boardwrapper.board)
                == GameStatus::Drawn ==> r == Some((None::<ChessMove>, Eval { score: DRAW, mate: false }))
                && final(self).settled_from(*old(self)) && *final(tt) == *old(tt),
            r is Some && !mate_cut(alpha as int, ply as int) && board_status(boardwrapper.board)
                == GameStatus::Ongoing && depth + check_extension(boardwrapper.board) > 0 && ply > 0
                && repeats(old(past_positions)@, board_hash(boardwrapper.board)) ==> r == Some(
                (None::<ChessMove>, Eval { score: DRAW, mate: false }),
            ) && final(self).settled_from(*old(self)) && *final(tt) == *old(tt),
        decreases EVAL_STACK_LEN - ply, depth + 0x1000_0000, 1int,
    {
        let stopped = self.time_control.depth > 1 && ctx.aborted();
        self.search_node(stopped, ctx, tt, boardwrapper, depth, ply, alpha, beta, past_positions, last_move)
    }

    /// An alpha-beta node once it is known whether to stop: nothing at all
    /// when stopped. Otherwise mate distance pruning, the check extension, the
    /// end of the game, the drop into quiescence search, repetitions, the
    /// table cutoff, internal iterative deepening and reduction, reverse
    /// futility and null move pruning; then the table move before the
    /// generated moves, with late move and history pruning, late move
    /// reductions and null window re-searches; the best move goes to the
    /// table and, at a cutoff, to the killers, history and countermoves. Where
    /// the original would index past its per-ply tables (300 static
    /// evaluations, 256 plies of move ordering), the node scores its static
    /// evaluation.
    #[verifier::rlimit(100)]
    #[verifier::spinoff_prover]
    pub fn search_node<C: SearchContext>(
        &mut self,
        stopped: bool,
        ctx: &mut C,
        tt: &mut TT,
        boardwrapper: &BoardWrapper,
        depth: i32,
        ply: i32,
        alpha: i32,
        beta: i32,
        past_positions: &mut Vec<u64>,
        last_move: Option<ChessMove>,
    ) -> (r: Option<(Option<ChessMove>, Eval)>)
        requires
            old(self).wf(),
            old(tt).wf(),
            old(tt).scores_bounded(),
            board_valid(boardwrapper.board),
            0 <= ply <= EVAL_STACK_LEN,
            -i32::MAX <= alpha < beta <= i32::MAX,
            -0x0800_0000 <= depth <= 1000 + ply,
            last_move matches Some(lm) ==> lm.from < 64 && lm.to < 64,
            stopped ==> old(self).time_control.depth > 1,
        ensures
            final(self).wf(),
            final(tt).wf(),
            final(tt).scores_bounded(),
            final(self).time_control == old(self).time_control,
            stopped ==> r is None && *final(self) == *old(self) && *final(tt) == *old(tt)
                && final(past_positions)@ == old(past_positions)@,
            !stopped && old(self).time_control.depth <= 1 ==> r is Some,
            r is None ==> old(self).time_control.depth > 1,
            r matches Some((_, e)) ==> -i32::MAX <= e.score <= i32::MAX,
            r is Some ==> final(past_positions)@ == old(past_positions)@,
            r matches Some((Some(m), _)) ==> table_move(*old(tt), boardwrapper.board, ply as int)
                == Some(m) || board_legal_moves(boardwrapper.board).contains(m),
            !stopped && mate_cut(alpha as int, ply as int) ==> r == Some(
                (None::<ChessMove>, Eval { score: (CHECKMATE_BASE - ply) as i32, mate: true }),
            ) && final(self).settled_from(*old(self)) && *final(tt) == *old(tt),
            !stopped && !mate_cut(alpha as int, ply as int) && board_status(boardwrapper.board)
                == GameStatus::Won ==> r == Some(
                (None::<ChessMove>, Eval { score: (-CHECKMATE_BASE + ply) as i32, mate: true }),
            ) && final(self).settled_from(*old(self)) && *final(tt) == *old(tt),
            !stopped && !mate_cut(alpha as int, ply as int) && board_status(boardwrapper.board)
                == GameStatus::Drawn ==> r == Some((None::<ChessMove>, Eval { score: DRAW, mate: false }))
                && final(self).settled_from(*old(self)) && *final(tt) == *old(tt),
            !stopped && !mate_cut(alpha as int, ply as int) && board_status(boardwrapper.board)
                == GameStatus::Ongoing && depth + check_extension(boardwrapper.board) > 0 && ply > 0
                && repeats(old(past_positions)@, board_hash(boardwrapper.board)) ==> r == Some(
                (None::<ChessMove>, Eval { score: DRAW, mate: false }),
            ) && final(self).settled_from(*old(self)) && *final(tt) == *old(tt),
        decreases EVAL_STACK_LEN - ply, depth + 0x1000_0000, 0int,
    {
        let mut depth = depth;
        let mut cur_alpha = alpha;
        if stopped {
            return None;
        }
        self.count_node();

        match mate_distance_cutoff(cur_alpha, ply) {
            Some(e) => {
                return Some((None, e));
            },
            None => {},
        }

        let mut globally_extended = false;
        let in_check = checkers(&boardwrapper.board) != 0;
        let is_pv = beta > cur_alpha + 1;

        if in_check {
            globally_extended = true;
            depth = depth + 1;
        }

        match terminal_eval(&boardwrapper.board, ply) {
            Some(e) => {
                return Some((None, e));
            },
            None => {},
        }

        if depth <= 0 {
            return self.qsearch(ctx, tt, boardwrapper, cur_alpha, beta, ply);
        }

        if is_repetition(hash(&boardwrapper.board), past_positions) && ply > 0 {
            return Some((None, Eval::new(DRAW, false)));
        }

        let tt_hit: Option<TTEntry> = match tt.find(&boardwrapper.board, ply) {
            Some(table_find) => {
                match tt_search_cutoff(&table_find, depth, cur_alpha, beta) {
                    Some(e) => {
                        return Some((table_find.best_move, e));
                    },
                    None => {},
                }
                Some(table_find)
            },
            None => {
                if depth >= IID_DEPTH_MIN && is_pv {
                    match self.search(ctx, tt, boardwrapper, depth - 10, ply, cur_alpha, beta, past_positions, last_move) {
                        Some(_) => {},
                        None => {
                            return None;
                        },
                    }
                }
                depth = iir_depth(depth, ply);
                None
            },
        };

        let static_eval: i32 = match tt_hit {
            Some(e) => e.eval,
            None => corrected_eval(ctx, boardwrapper),
        };

        if ply >= EVAL_STACK_LEN as i32 {
            return Some((None, Eval::new(static_eval, false)));
        }
        self.evals.set(ply, static_eval);
        let improving = self.evals.improving(ply);

        if rfp_prunes(depth, in_check, static_eval, improving, beta) {
            return Some((None, Eval::new(static_eval, false)));
        }

        let improving_nmp_check = self.evals.nmp_improving(ply);
        if nmp_applies(&boardwrapper.board, ply, static_eval, beta, improving_nmp_check) {
            let margin: i64 = if improving {
                0
            } else {
                30
            };
            let diff_wide: i64 = static_eval as i64 - beta as i64 + margin;
            let diff: i32 = if diff_wide > i32::MAX as i64 {
                i32::MAX
            } else {
                diff_wide as i32
            };
            let reduction = get_nmp_reduction_amount(depth, diff);
            let nulled_board = boardwrapper.null_move();
            match self.search(ctx, tt, &nulled_board, depth - reduction, ply + 1, -beta, -beta + 1, past_positions, None) {
                Some((_, null_eval)) => {
                    if -null_eval.score >= beta {
                        return Some((None, Eval::new(beta, false)));
                    }
                },
                None => {
                    return None;
                },
            }
        }

        if ply >= SORTER_PLIES {
            return Some((None, Eval::new(static_eval, false)));
        }

        let mut best_move: Option<ChessMove> = None;
        let mut best_move_type: Option<MoveType> = None;
        let mut eval = Eval::new(i32::MIN, false);

        let top_move = table_move_first(&boardwrapper.board, tt_hit);
        let mut staged_movegen = top_move.is_some();
        let mut legal_moves: Vec<SortedMove> = match top_move {
            Some(sm) => {
                let mut v: Vec<SortedMove> = Vec::new();
                v.push(sm);
                v
            },
            None => {
                let ghost sorter0 = self.movegen.sorter;
                let v = self.movegen.move_gen(&boardwrapper.board, None, ply, false, last_move);
                proof {
                    lemma_nonempty_moves(sorter0, boardwrapper.board, ply as int, last_move, v@);
                }
                v
            },
        };

        let mut moves_searched: i32 = 0;
        let mut legal_index: usize = 0;
        let mut tt_nodetype = NodeKind::UpperBound;

        while legal_index < legal_moves.len()
            invariant
                self.wf(),
                tt.wf(),
                tt.scores_bounded(),
                board_valid(boardwrapper.board),
                0 <= ply < SORTER_PLIES,
                1 <= depth <= 1001 + ply,
                self.time_control == old(self).time_control,
                !stopped,
                !mate_cut(alpha as int, ply as int),
                board_status(boardwrapper.board) == GameStatus::Ongoing,
                !(ply > 0 && repeats(old(past_positions)@, board_hash(boardwrapper.board))),
                -i32::MAX <= cur_alpha < beta <= i32::MAX,
                past_positions@ == old(past_positions)@,
                last_move matches Some(lm) ==> lm.from < 64 && lm.to < 64,
                forall|k: int| 0 <= k < legal_moves@.len() ==> sound_move(boardwrapper.board, #[trigger] legal_moves@[k]),
                best_move matches Some(m) ==> m.from < 64 && m.to < 64 && board_legal_moves(
                    boardwrapper.board,
                ).contains(m),
                best_move is Some ==> -i32::MAX <= eval.score <= i32::MAX,
                best_move is None ==> eval.score == i32::MIN && moves_searched == 0 && legal_index == 0
                    && legal_moves@.len() > 0,
                0 <= moves_searched,
                staged_movegen ==> legal_moves@.len() == 1,
            ensures
                self.wf(),
                self.time_control == old(self).time_control,
                tt.wf(),
                tt.scores_bounded(),
                past_positions@ == old(past_positions)@,
                best_move matches Some(m) ==> m.from < 64 && m.to < 64 && board_legal_moves(
                    boardwrapper.board,
                ).contains(m),
                best_move is Some,
                -i32::MAX <= eval.score <= i32::MAX,
            decreases (if staged_movegen {
                1int
            } else {
                0int
            }), legal_moves@.len() - legal_index,
        {
            let mvlen: i32 = if legal_moves.len() > 0x7fff_ffff {
                0x7fff_ffff
            } else {
                legal_moves.len() as i32
            };
            let mut sm = legal_moves[legal_index];
            let mv = sm.mv;
            proof {
                assert(sound_move(boardwrapper.board, legal_moves@[legal_index as int]));
                let b = boardwrapper.board;
                let k = choose|k: int| 0 <= k < board_legal_moves(b).len() && board_legal_moves(b)[k] == mv;
                assert(board_legal_moves(b)[k] == mv);
                if sm.movetype == MoveType::Loud && piece_on_spec(b, mv.to as int) is Some {
                    lemma_capture_count(b, mv.to as int);
                }
            }
            let mut board_wrapper_cache = boardwrapper.clone();
            board_wrapper_cache.play_unchecked(&mut sm);

            let move_is_check = checkers(&board_wrapper_cache.board) != 0;
            past_positions.push(hash(&board_wrapper_cache.board));

            let mut new_depth = depth - 1;
            if kp_endgame_extension(&boardwrapper.board, &board_wrapper_cache.board, globally_extended, staged_movegen) {
                new_depth = new_depth + 1;
            }

            let quiet = sm.movetype == MoveType::Quiet;
            let value: Eval;

            if moves_searched == 0 {
                match self.search(ctx, tt, &board_wrapper_cache, new_depth, ply + 1, -beta, -cur_alpha, past_positions, Some(mv)) {
                    Some((_, child)) => {
                        value = Eval { score: -child.score, mate: child.mate };
                    },
                    None => {
                        return None;
                    },
                }
            } else {
                if lmp_prunes(is_pv, depth, quiet, cur_alpha, moves_searched, mvlen, improving, in_check) {
                    past_positions.pop();
                    break;
                }

                if history_prunes(depth, sm.history) {
                    past_positions.pop();
                    legal_index = legal_index + 1;
                    continue;
                }

                let passer = passed_pawn_move(&boardwrapper.board, mv, is_pv);
                let reduction = late_move_reduction(
                    sm.history,
                    moves_searched,
                    is_pv,
                    quiet,
                    move_is_check,
                    get_lmr_reduction_amount(&self.lmr, depth, moves_searched),
                    mv.promotion,
                    depth,
                    passer,
                    in_check,
                    sm.is_killer,
                    sm.is_countermove,
                );
                proof {
                    lemma_reduction_bound(
                        sm.history as int,
                        moves_searched as int,
                        is_pv,
                        quiet,
                        move_is_check,
                        get_lmr_spec(self.lmr, depth, moves_searched) as int,
                        mv.promotion,
                        depth as int,
                        passer,
                        in_check,
                        sm.is_killer,
                        sm.is_countermove,
                    );
                }

                let mut v = match self.search(
                    ctx,
                    tt,
                    &board_wrapper_cache,
                    new_depth - reduction,
                    ply + 1,
                    -cur_alpha - 1,
                    -cur_alpha,
                    past_positions,
                    Some(mv),
                ) {
                    Some((_, child)) => Eval { score: -child.score, mate: child.mate },
                    None => {
                        return None;
                    },
                };

                if v.score > cur_alpha && reduction > 0 {
                    v = match self.search(ctx, tt, &board_wrapper_cache, new_depth, ply + 1, -cur_alpha - 1, -cur_alpha, past_positions, Some(mv)) {
                        Some((_, child)) => Eval { score: -child.score, mate: child.mate },
                        None => {
                            return None;
                        },
                    };
                }

                if v.score > cur_alpha && v.score < beta {
                    v = match self.search(ctx, tt, &board_wrapper_cache, new_depth, ply + 1, -beta, -cur_alpha, past_positions, Some(mv)) {
                        Some((_, child)) => Eval { score: -child.score, mate: child.mate },
                        None => {
                            return None;
                        },
                    };
                }
                value = v;
            }

            past_positions.pop();

            let mut do_spp = false;
            let mut cut = false;
            match step(eval.score, cur_alpha, beta, value.score) {
                Step::Worse => {},
                Step::Better => {
                    eval = value;
                    best_move = Some(mv);
                    best_move_type = Some(sm.movetype);
                    do_spp = spp_applies(is_pv, depth, move_is_check, sm.is_killer, sm.is_countermove, quiet, staged_movegen);
                },
                Step::Raised => {
                    eval = value;
                    best_move = Some(mv);
                    best_move_type = Some(sm.movetype);
                    cur_alpha = value.score;
                    tt_nodetype = NodeKind::Exact;
                },
                Step::Cutoff => {
                    eval = value;
                    best_move = Some(mv);
                    best_move_type = Some(sm.movetype);
                    tt_nodetype = NodeKind::LowerBound;
                    sm.insert_killer(&mut self.movegen.sorter, ply, &boardwrapper.board);
                    sm.insert_history(&mut self.movegen.sorter, depth, &boardwrapper.board);
                    sm.insert_countermove(&mut self.movegen.sorter, last_move);
                    cut = true;
                },
            }
            if cut {
                break;
            }

            sm.decay_history(&mut self.movegen.sorter, depth, &boardwrapper.board);

            if do_spp {
                break;
            }

            if moves_searched < i32::MAX {
                moves_searched = moves_searched + 1;
            }
            legal_index = legal_index + 1;

            if staged_movegen && legal_index >= legal_moves.len() {
                staged_movegen = false;
                legal_index = 0;
                legal_moves = self.movegen.move_gen(&boardwrapper.board, Some(mv), ply, true, last_move);
            }
        }

        store_node(tt, best_move, eval.score, hash(&boardwrapper.board), ply, depth, tt_nodetype);

        let best_quiet: Option<bool> = match best_move_type {
            Some(t) => Some(t == MoveType::Quiet),
            None => None,
        };
        if corrhist_applies(best_quiet, tt_nodetype, eval.score, static_eval) {
            ctx.record_correction(boardwrapper, depth, eval.score, static_eval);
        }

        Some((best_move, eval))
    }
}

} // verus!
