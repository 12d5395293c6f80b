//! Move ordering: hash move, promotions, captures by exchange value, killer and
//! counter moves, then quiet moves by history.

use vstd::prelude::*;
use crate::board::{
    board_legal_moves, board_side, board_valid, color_on, color_on_spec, occupied_spec, piece_on, piece_on_spec, side_to_move,
};
use crate::chess::{ChessMove, Color, Piece, has, lemma_has_or};
use crate::eval::score::trunc_div;
use crate::movegen::movegen::SortedMove;
use crate::movegen::see::{See, see_spec};

verus! {

/// Captures are loud; everything else is quiet.
#[derive(Clone, Copy, Debug, PartialEq, Eq, Structural)]
pub enum MoveType {
    Loud,
    Quiet,
}

/// The bound that history and continuation-history entries stay within.
pub open spec fn table_bound() -> int {
    536_870_912
}

/// The largest step a history update takes (for depths of magnitude 20000).
pub open spec fn max_step() -> int {
    400_000_050
}

/// An entry moved toward the top by `c`, less the more it already has: the
/// update is skipped when `c * h` does not fit in 32 bits.
pub open spec fn gravity_add(h: int, c: int) -> int {
    if i32::MIN <= c * h <= i32::MAX {
        h + (c - trunc_div(c * h, 2000))
    } else {
        h
    }
}

/// An entry moved toward the bottom by `c`, the more the higher it is.
pub open spec fn gravity_sub(h: int, c: int) -> int {
    if i32::MIN <= c * h <= i32::MAX {
        h - (c + trunc_div(c * h, 2000))
    } else {
        h
    }
}

proof fn lemma_quotient_bound(p: int)
    requires
        i32::MIN <= p <= i32::MAX,
    ensures
        -1073742 <= trunc_div(p, 2000) <= 1073742,
        p >= 0 ==> 0 <= trunc_div(p, 2000) <= p / 2000,
        p < 0 ==> trunc_div(p, 2000) <= 0,
{
}

pub proof fn lemma_gravity_add(h: int, c: int)
    requires
        -table_bound() <= h <= table_bound(),
        50 <= c <= max_step(),
    ensures
        -table_bound() <= gravity_add(h, c) <= table_bound(),
        i32::MIN <= c * h <= i32::MAX ==> i32::MIN <= c - trunc_div(c * h, 2000) <= i32::MAX,
{
    if i32::MIN <= c * h <= i32::MAX {
        let p = c * h;
        lemma_quotient_bound(p);
        if h >= 0 {
            assert(h <= 42949673) by (nonlinear_arith)
                requires
                    c * h <= 2147483647,
                    c >= 50,
                    h >= 0,
            ;
        } else {
            assert(p < 0) by (nonlinear_arith)
                requires
                    p == c * h,
                    c >= 50,
                    h < 0,
            ;
        }
    }
}

pub proof fn lemma_gravity_sub(h: int, c: int)
    requires
        -table_bound() <= h <= table_bound(),
        0 <= c <= max_step(),
    ensures
        -table_bound() <= gravity_sub(h, c) <= table_bound(),
        i32::MIN <= c * h <= i32::MAX ==> i32::MIN <= c + trunc_div(c * h, 2000) <= i32::MAX,
{
    if i32::MIN <= c * h <= i32::MAX {
        let p = c * h;
        lemma_quotient_bound(p);
        if h >= 0 {
            assert(p >= 0) by (nonlinear_arith)
                requires
                    p == c * h,
                    c >= 0,
                    h >= 0,
            ;
        } else if h <= -2000 {
            assert(-p >= 2000 * c) by (nonlinear_arith)
                requires
                    p == c * h,
                    c >= 0,
                    h <= -2000,
            ;
            assert((-p) / 2000 >= c);
        } else {
            assert(-p <= 2000 * c) by (nonlinear_arith)
                requires
                    p == c * h,
                    c >= 0,
                    -2000 < h < 0,
            ;
        }
    }
}

/// The ordering scores.
pub const HASHMOVE_SCORE: i32 = 1000000;
pub const PROMO: i32 = 50000;
pub const WINNING_CAPTURE: i32 = 50000;
pub const NEUTRAL_CAPTURE: i32 = 30000;
pub const KILLER_QUIET: i32 = 15000;
pub const COUNTER_QUIET: i32 = 10000;
pub const QUIET_MOVE: i32 = 0;
pub const LOSING_CAPTURE: i32 = -50000;
pub const UNDER_PROMO: i32 = -50000;
pub const HISTORY_MAX: i32 = 2000;

/// Sizes of the tables: killers per side and ply, history per side and move,
/// counter moves per move, continuation history per (previous piece, previous
/// square, piece, square), and the continuation stack per ply.
/// The number of entries per side of each correction history table.
pub const CORRHIST_SIZE: usize = 16384;

/// The entry of a correction history table that a hash falls in.
pub fn corrhist_index(hash: u64) -> (r: usize)
    ensures
        r == hash % (CORRHIST_SIZE as u64),
        r < CORRHIST_SIZE,
{
    (hash % 16384) as usize
}

pub const KILLER_PLIES: usize = 100;
pub const HISTORY_LEN: usize = 8192;
pub const COUNTERMOVE_LEN: usize = 4096;
pub const CONTHIST_LEN: usize = 648960;
pub const STACK_LEN: usize = 256;

/// The piece slot of a continuation-history entry: White's six kinds, then
/// Black's; 12 stands for a null move.
pub open spec fn piece_index_spec(b: cozy_chess::Board, mv: ChessMove) -> int {
    piece_on_spec(b, mv.from as int).unwrap().to_int() + match color_on_spec(b, mv.from as int).unwrap() {
        Color::White => 0int,
        Color::Black => 6int,
    }
}

pub open spec fn cont_index(prev_piece: int, prev_sq: int, curr_piece: int, curr_sq: int) -> int {
    prev_piece * 65 * 12 * 64 + prev_sq * 12 * 64 + curr_piece * 64 + curr_sq
}

pub open spec fn history_index(side: int, from: int, to: int) -> int {
    side * 4096 + from * 64 + to
}

/// The piece on the from-square of a legal move is there, and is the mover's.
pub open spec fn mover_known(b: cozy_chess::Board, mv: ChessMove) -> bool {
    &&& mv.from < 64
    &&& mv.to < 64
    &&& piece_on_spec(b, mv.from as int) is Some
    &&& color_on_spec(b, mv.from as int) is Some
}

pub proof fn lemma_legal_mover_known(b: cozy_chess::Board, mv: ChessMove)
    requires
        board_valid(b),
        board_legal_moves(b).contains(mv),
    ensures
        mover_known(b, mv),
{
    let i = choose|i: int| 0 <= i < board_legal_moves(b).len() && board_legal_moves(b)[i] == mv;
    assert(board_legal_moves(b)[i] == mv);
    lemma_has_or(
        crate::board::board_colors(b)[0],
        crate::board::board_colors(b)[1],
        mv.from as int,
    );
    assert(has(occupied_spec(b), mv.from as int));
}

fn get_piece_index(board: &cozy_chess::Board, mv: ChessMove) -> (r: usize)
    requires
        mover_known(*board, mv),
    ensures
        r == piece_index_spec(*board, mv),
        r < 12,
{
    let piece_idx = match piece_on(board, mv.from) {
        Some(p) => p.index(),
        None => {
            assert(false);
            0
        },
    };
    let color = match color_on(board, mv.from) {
        Some(c) => c,
        None => {
            assert(false);
            Color::White
        },
    };
    match color {
        Color::White => piece_idx,
        Color::Black => piece_idx + 6,
    }
}

fn cont_hist_index(prev_piece: usize, prev_sq: usize, curr_piece: usize, curr_sq: usize) -> (r: usize)
    requires
        prev_piece < 13,
        prev_sq < 65,
        curr_piece < 12,
        curr_sq < 64,
    ensures
        r == cont_index(prev_piece as int, prev_sq as int, curr_piece as int, curr_sq as int),
        r < CONTHIST_LEN,
{
    assert(prev_piece * 65 * 12 * 64 + prev_sq * 12 * 64 + curr_piece * 64 + curr_sq < 648960)
        by (nonlinear_arith)
        requires
            prev_piece < 13,
            prev_sq < 65,
            curr_piece < 12,
            curr_sq < 64,
    ;
    prev_piece * 65 * 12 * 64 + prev_sq * 12 * 64 + curr_piece * 64 + curr_sq
}

pub struct MoveSorter {
    killer_table: Vec<Option<ChessMove>>,
    history_table: Vec<i32>,
    countermove_table: Vec<Option<ChessMove>>,
    conthist: Vec<i32>,
    conthist_stack: Vec<(usize, usize)>,
    see: See,
}

impl MoveSorter {
    /// Table sizes, entries in range, continuation stack entries in range.
    pub closed spec fn wf(self) -> bool {
        &&& self.killer_table@.len() == 2 * KILLER_PLIES
        &&& self.history_table@.len() == HISTORY_LEN
        &&& self.countermove_table@.len() == COUNTERMOVE_LEN
        &&& self.conthist@.len() == CONTHIST_LEN
        &&& self.conthist_stack@.len() == STACK_LEN
        &&& forall|i: int|
            0 <= i < HISTORY_LEN ==> -table_bound() <= #[trigger] self.history_table@[i]
                <= table_bound()
        &&& forall|i: int|
            0 <= i < CONTHIST_LEN ==> -table_bound() <= #[trigger] self.conthist@[i] <= table_bound()
        &&& forall|i: int|
            0 <= i < STACK_LEN ==> (#[trigger] self.conthist_stack@[i]).0 < 13
                && self.conthist_stack@[i].1 < 65
    }

    /// The killer move of a side at a ply.
    pub closed spec fn killer(self, side: int, ply: int) -> Option<ChessMove> {
        self.killer_table@[side * 100 + ply]
    }

    pub closed spec fn history(self, side: int, from: int, to: int) -> i32 {
        self.history_table@[history_index(side, from, to)]
    }

    pub closed spec fn countermove(self, from: int, to: int) -> Option<ChessMove> {
        self.countermove_table@[from * 64 + to]
    }

    pub closed spec fn conthist_at(self, i: int) -> i32 {
        self.conthist@[i]
    }

    /// The (piece slot, square) of the move played at a ply.
    pub closed spec fn stack_at(self, ply: int) -> (usize, usize) {
        self.conthist_stack@[ply]
    }

    pub proof fn lemma_wf_ranges(self)
        requires
            self.wf(),
        ensures
            forall|s: int, f: int, t: int|
                0 <= s < 2 && 0 <= f < 64 && 0 <= t < 64 ==> -table_bound() <= #[trigger] self.history(s, f, t) <= table_bound(),
            forall|i: int| 0 <= i < CONTHIST_LEN ==> -table_bound() <= #[trigger] self.conthist_at(i) <= table_bound(),
            forall|p: int| 0 <= p < STACK_LEN ==> (#[trigger] self.stack_at(p)).0 < 13 && self.stack_at(p).1 < 65,
    {
        assert forall|s: int, f: int, t: int|
            0 <= s < 2 && 0 <= f < 64 && 0 <= t < 64 implies -table_bound() <= #[trigger] self.history(s, f, t) <= table_bound() by {
            assert(0 <= history_index(s, f, t) < HISTORY_LEN);
        }
    }

    /// Empty tables: no killers or counter moves, zero histories, null stack.
    /// Empty tables: no killers or countermoves, all histories zero, every ply
    /// of the stack at slot (0, 0).
    pub open spec fn empty_tables(self) -> bool {
        &&& forall|s: int, p: int|
            0 <= s < 2 && 0 <= p < KILLER_PLIES ==> #[trigger] self.killer(s, p) == None::<ChessMove>
        &&& forall|s: int, f: int, t: int|
            0 <= s < 2 && 0 <= f < 64 && 0 <= t < 64 ==> #[trigger] self.history(s, f, t) == 0
        &&& forall|f: int, t: int|
            0 <= f < 64 && 0 <= t < 64 ==> #[trigger] self.countermove(f, t) == None::<ChessMove>
        &&& forall|i: int| 0 <= i < CONTHIST_LEN ==> #[trigger] self.conthist_at(i) == 0
        &&& forall|p: int| 0 <= p < STACK_LEN ==> #[trigger] self.stack_at(p) == (0usize, 0usize)
    }

    pub fn new() -> (ms: MoveSorter)
        ensures
            ms.wf(),
            ms.empty_tables(),
    {
        let mut killer_table: Vec<Option<ChessMove>> = Vec::new();
        let mut i: usize = 0;
        while i < 2 * KILLER_PLIES
            invariant
                i <= 2 * KILLER_PLIES,
                killer_table@.len() == i,
                forall|j: int| 0 <= j < i ==> killer_table@[j] == None::<ChessMove>,
            decreases 2 * KILLER_PLIES - i,
        {
            killer_table.push(None);
            i = i + 1;
        }
        let mut history_table: Vec<i32> = Vec::new();
        i = 0;
        while i < HISTORY_LEN
            invariant
                i <= HISTORY_LEN,
                history_table@.len() == i,
                forall|j: int| 0 <= j < i ==> history_table@[j] == 0,
            decreases HISTORY_LEN - i,
        {
            history_table.push(0);
            i = i + 1;
        }
        let mut countermove_table: Vec<Option<ChessMove>> = Vec::new();
        i = 0;
        while i < COUNTERMOVE_LEN
            invariant
                i <= COUNTERMOVE_LEN,
                countermove_table@.len() == i,
                forall|j: int| 0 <= j < i ==> countermove_table@[j] == None::<ChessMove>,
            decreases COUNTERMOVE_LEN - i,
        {
            countermove_table.push(None);
            i = i + 1;
        }
        let mut conthist: Vec<i32> = Vec::new();
        i = 0;
        while i < CONTHIST_LEN
            invariant
                i <= CONTHIST_LEN,
                conthist@.len() == i,
                forall|j: int| 0 <= j < i ==> conthist@[j] == 0,
            decreases CONTHIST_LEN - i,
        {
            conthist.push(0);
            i = i + 1;
        }
        let mut conthist_stack: Vec<(usize, usize)> = Vec::new();
        i = 0;
        while i < STACK_LEN
            invariant
                i <= STACK_LEN,
                conthist_stack@.len() == i,
                forall|j: int| 0 <= j < i ==> conthist_stack@[j] == (0usize, 0usize),
            decreases STACK_LEN - i,
        {
            conthist_stack.push((0, 0));
            i = i + 1;
        }
        MoveSorter {
            killer_table: killer_table,
            history_table: history_table,
            countermove_table: countermove_table,
            conthist: conthist,
            conthist_stack: conthist_stack,
            see: See::new(),
        }
    }

    /// Whether the move is the killer of the side to move at this ply.
    pub open spec fn is_killer_spec(self, mv: ChessMove, side: Color, ply: int) -> bool {
        ply < 100 && self.killer(side.to_int(), ply) == Some(mv)
    }

    fn is_killer(&self, mv: ChessMove, board: &cozy_chess::Board, ply: i32) -> (r: bool)
        requires
            self.wf(),
            ply >= 0,
        ensures
            r == self.is_killer_spec(mv, board_side(*board), ply as int),
    {
        if ply < 100 {
            let color = side_to_move(board);
            let slot = self.killer_table[color.index() * 100 + ply as usize];
            match slot {
                Some(k) => k == mv,
                None => false,
            }
        } else {
            false
        }
    }

    /// Makes the move the killer of the side to move at this ply (below ply 100).
    pub fn add_killer(&mut self, mv: ChessMove, ply: i32, board: &cozy_chess::Board)
        requires
            old(self).wf(),
            ply >= 0,
        ensures
            final(self).wf(),
            forall|s: int, p: int|
                0 <= s < 2 && 0 <= p < 100 ==> #[trigger] final(self).killer(s, p) == if s
                    == board_side(*board).to_int() && p == ply {
                    Some(mv)
                } else {
                    old(self).killer(s, p)
                },
            forall|s: int, f: int, t: int| #[trigger] final(self).history(s, f, t) == old(self).history(s, f, t),
            forall|f: int, t: int| #[trigger] final(self).countermove(f, t) == old(self).countermove(f, t),
            forall|i: int| #[trigger] final(self).conthist_at(i) == old(self).conthist_at(i),
            forall|p: int| #[trigger] final(self).stack_at(p) == old(self).stack_at(p),
    {
        if ply < 100 && !self.is_killer(mv, board, ply) {
            let color = side_to_move(board);
            let idx = color.index() * 100 + ply as usize;
            self.killer_table.set(idx, Some(mv));
        }
        assert forall|s: int, p: int|
            0 <= s < 2 && 0 <= p < 100 implies #[trigger] self.killer(s, p) == if s == board_side(*board).to_int() && p == ply {
                Some(mv)
            } else {
                old(self).killer(s, p)
            } by {
            if (s != board_side(*board).to_int() || p != ply) && ply < 100 {
                assert(s * 100 + p != board_side(*board).to_int() * 100 + ply);
            }
        }
    }

    /// The history of a move for the side to move.
    fn get_history(&self, mv: ChessMove, board: &cozy_chess::Board) -> (r: i32)
        requires
            self.wf(),
            mv.from < 64,
            mv.to < 64,
        ensures
            r == self.history(board_side(*board).to_int(), mv.from as int, mv.to as int),
    {
        let side = side_to_move(board).index();
        self.history_table[side * 4096 + mv.from as usize * 64 + mv.to as usize]
    }

    /// Raises the history of a move for the side to move by `depth * depth + 50`,
    /// less the higher it already is.
    pub fn add_history(&mut self, mv: ChessMove, depth: i32, board: &cozy_chess::Board)
        requires
            old(self).wf(),
            mv.from < 64,
            mv.to < 64,
            -20000 <= depth <= 20000,
        ensures
            final(self).wf(),
            forall|s: int, f: int, t: int|
                0 <= s < 2 && 0 <= f < 64 && 0 <= t < 64 ==> #[trigger] final(self).history(s, f, t) == if s
                    == board_side(*board).to_int() && f == mv.from && t == mv.to {
                    gravity_add(old(self).history(s, f, t) as int, depth * depth + 50) as i32
                } else {
                    old(self).history(s, f, t)
                },
            forall|s: int, p: int| #[trigger] final(self).killer(s, p) == old(self).killer(s, p),
            forall|f: int, t: int| #[trigger] final(self).countermove(f, t) == old(self).countermove(f, t),
            forall|i: int| #[trigger] final(self).conthist_at(i) == old(self).conthist_at(i),
            forall|p: int| #[trigger] final(self).stack_at(p) == old(self).stack_at(p),
    {
        let side = side_to_move(board).index();
        let idx = side * 4096 + mv.from as usize * 64 + mv.to as usize;
        let history = self.history_table[idx];
        assert(depth * depth <= 400000000) by (nonlinear_arith)
            requires
                -20000 <= depth <= 20000,
        ;
        assert(depth * depth >= 0) by (nonlinear_arith);
        let change = depth * depth + 50;
        proof {
            lemma_gravity_add(history as int, change as int);
        }
        if !change.checked_mul(history).is_none() {
            let delta = change - change * history / HISTORY_MAX;
            self.history_table.set(idx, history + delta);
        }
        proof {
            self.lemma_update_history(*old(self), idx as int, board_side(*board).to_int(), mv.from as int, mv.to as int);
        }
    }

    /// Lowers the history of a move for the side to move by `depth * depth`,
    /// the more the higher it is.
    pub fn decay_history(&mut self, mv: ChessMove, depth: i32, board: &cozy_chess::Board)
        requires
            old(self).wf(),
            mv.from < 64,
            mv.to < 64,
            -20000 <= depth <= 20000,
        ensures
            final(self).wf(),
            forall|s: int, f: int, t: int|
                0 <= s < 2 && 0 <= f < 64 && 0 <= t < 64 ==> #[trigger] final(self).history(s, f, t) == if s
                    == board_side(*board).to_int() && f == mv.from && t == mv.to {
                    gravity_sub(old(self).history(s, f, t) as int, depth * depth) as i32
                } else {
                    old(self).history(s, f, t)
                },
            forall|s: int, p: int| #[trigger] final(self).killer(s, p) == old(self).killer(s, p),
            forall|f: int, t: int| #[trigger] final(self).countermove(f, t) == old(self).countermove(f, t),
            forall|i: int| #[trigger] final(self).conthist_at(i) == old(self).conthist_at(i),
            forall|p: int| #[trigger] final(self).stack_at(p) == old(self).stack_at(p),
    {
        let side = side_to_move(board).index();
        let idx = side * 4096 + mv.from as usize * 64 + mv.to as usize;
        let history = self.history_table[idx];
        assert(depth * depth <= 400000000) by (nonlinear_arith)
            requires
                -20000 <= depth <= 20000,
        ;
        assert(depth * depth >= 0) by (nonlinear_arith);
        let change = depth * depth;
        proof {
            lemma_gravity_sub(history as int, change as int);
        }
        if !change.checked_mul(history).is_none() {
            let delta = change + change * history / HISTORY_MAX;
            self.history_table.set(idx, history - delta);
        }
        proof {
            self.lemma_update_history(*old(self), idx as int, board_side(*board).to_int(), mv.from as int, mv.to as int);
        }
    }

    proof fn lemma_update_history(self, old_self: MoveSorter, idx: int, side: int, from: int, to: int)
        requires
            old_self.wf(),
            0 <= side < 2,
            0 <= from < 64,
            0 <= to < 64,
            idx == history_index(side, from, to),
            self.history_table@.len() == HISTORY_LEN,
            -table_bound() <= self.history_table@[idx] <= table_bound(),
            forall|j: int| 0 <= j < HISTORY_LEN && j != idx ==> self.history_table@[j] == old_self.history_table@[j],
            self.killer_table == old_self.killer_table,
            self.countermove_table == old_self.countermove_table,
            self.conthist == old_self.conthist,
            self.conthist_stack == old_self.conthist_stack,
        ensures
            self.wf(),
            forall|s: int, f: int, t: int|
                0 <= s < 2 && 0 <= f < 64 && 0 <= t < 64 && !(s == side && f == from && t == to) ==> #[trigger] self.history(s, f, t) == old_self.history(s, f, t),
    {
        assert forall|s: int, f: int, t: int|
            0 <= s < 2 && 0 <= f < 64 && 0 <= t < 64 && !(s == side && f == from && t == to) implies #[trigger] self.history(s, f, t) == old_self.history(s, f, t) by {
            assert(history_index(s, f, t) != history_index(side, from, to));
        }
        assert forall|i: int| 0 <= i < HISTORY_LEN implies -table_bound() <= #[trigger] self.history_table@[i] <= table_bound() by {
            if i != idx {
                assert(self.history_table@[i] == old_self.history_table@[i]);
            }
        }
    }
}

impl MoveSorter {
    /// Records `mv` as the answer to `last_move`.
    pub fn add_countermove(&mut self, mv: ChessMove, last_move: ChessMove)
        requires
            old(self).wf(),
            last_move.from < 64,
            last_move.to < 64,
        ensures
            final(self).wf(),
            forall|f: int, t: int|
                0 <= f < 64 && 0 <= t < 64 ==> #[trigger] final(self).countermove(f, t) == if f
                    == last_move.from && t == last_move.to {
                    Some(mv)
                } else {
                    old(self).countermove(f, t)
                },
            forall|s: int, p: int| #[trigger] final(self).killer(s, p) == old(self).killer(s, p),
            forall|s: int, f: int, t: int| #[trigger] final(self).history(s, f, t) == old(self).history(s, f, t),
            forall|i: int| #[trigger] final(self).conthist_at(i) == old(self).conthist_at(i),
            forall|p: int| #[trigger] final(self).stack_at(p) == old(self).stack_at(p),
    {
        let idx = last_move.from as usize * 64 + last_move.to as usize;
        self.countermove_table.set(idx, Some(mv));
        assert forall|f: int, t: int|
            0 <= f < 64 && 0 <= t < 64 implies #[trigger] self.countermove(f, t) == if f == last_move.from && t == last_move.to {
                Some(mv)
            } else {
                old(self).countermove(f, t)
            } by {
            if f != last_move.from || t != last_move.to {
                assert(f * 64 + t != last_move.from * 64 + last_move.to);
            }
        }
    }

    /// Whether `mv` is the recorded answer to the last move.
    pub open spec fn is_countermove_spec(self, mv: ChessMove, last_move: Option<ChessMove>) -> bool {
        match last_move {
            Some(lm) => self.countermove(lm.from as int, lm.to as int) == Some(mv),
            None => false,
        }
    }

    fn is_countermove(&self, mv: ChessMove, last_move: Option<ChessMove>) -> (r: bool)
        requires
            self.wf(),
            last_move matches Some(lm) ==> lm.from < 64 && lm.to < 64,
        ensures
            r == self.is_countermove_spec(mv, last_move),
    {
        match last_move {
            None => false,
            Some(lm) => {
                let entry = self.countermove_table[lm.from as usize * 64 + lm.to as usize];
                match entry {
                    Some(c) => c == mv,
                    None => false,
                }
            },
        }
    }

    /// Records the piece slot and target square of the move played at `ply + 1`.
    pub fn set_conthist(&mut self, mv: ChessMove, ply: i32, board: &cozy_chess::Board)
        requires
            old(self).wf(),
            0 <= ply + 1 < 256,
            mover_known(*board, mv),
        ensures
            final(self).wf(),
            forall|p: int|
                0 <= p < 256 ==> #[trigger] final(self).stack_at(p) == if p == ply + 1 {
                    (piece_index_spec(*board, mv) as usize, mv.to as usize)
                } else {
                    old(self).stack_at(p)
                },
            forall|s: int, p: int| #[trigger] final(self).killer(s, p) == old(self).killer(s, p),
            forall|s: int, f: int, t: int| #[trigger] final(self).history(s, f, t) == old(self).history(s, f, t),
            forall|f: int, t: int| #[trigger] final(self).countermove(f, t) == old(self).countermove(f, t),
            forall|i: int| #[trigger] final(self).conthist_at(i) == old(self).conthist_at(i),
    {
        let piece = get_piece_index(board, mv);
        self.conthist_stack.set((ply + 1) as usize, (piece, mv.to as usize));
    }

    /// Records a null move at `ply + 1`.
    pub fn set_null_conthist(&mut self, ply: i32)
        requires
            old(self).wf(),
            0 <= ply + 1 < 256,
        ensures
            final(self).wf(),
            forall|p: int|
                0 <= p < 256 ==> #[trigger] final(self).stack_at(p) == if p == ply + 1 {
                    (12usize, 64usize)
                } else {
                    old(self).stack_at(p)
                },
            forall|s: int, p: int| #[trigger] final(self).killer(s, p) == old(self).killer(s, p),
            forall|s: int, f: int, t: int| #[trigger] final(self).history(s, f, t) == old(self).history(s, f, t),
            forall|f: int, t: int| #[trigger] final(self).countermove(f, t) == old(self).countermove(f, t),
            forall|i: int| #[trigger] final(self).conthist_at(i) == old(self).conthist_at(i),
    {
        self.conthist_stack.set((ply + 1) as usize, (12, 64));
    }

    /// The continuation-history slot of a move after the move recorded at `ply`.
    pub open spec fn cont_slot(self, mv: ChessMove, ply: int, b: cozy_chess::Board) -> int {
        cont_index(
            self.stack_at(ply).0 as int,
            self.stack_at(ply).1 as int,
            piece_index_spec(b, mv),
            mv.to as int,
        )
    }

    fn cont_slot_exec(&self, mv: ChessMove, ply: i32, board: &cozy_chess::Board) -> (r: usize)
        requires
            self.wf(),
            0 <= ply < 256,
            mover_known(*board, mv),
        ensures
            r == self.cont_slot(mv, ply as int, *board),
            r < CONTHIST_LEN,
    {
        proof {
            self.lemma_wf_ranges();
        }
        let (prev_piece, prev_to) = self.conthist_stack[ply as usize];
        assert(prev_piece < 13 && prev_to < 65) by {
            assert(self.stack_at(ply as int) == self.conthist_stack@[ply as int]);
        }
        cont_hist_index(prev_piece, prev_to, get_piece_index(board, mv), mv.to as usize)
    }

    /// The continuation history of a move after the move recorded at `ply`.
    pub fn get_conthist(&self, mv: ChessMove, ply: i32, board: &cozy_chess::Board) -> (r: i32)
        requires
            self.wf(),
            0 <= ply < 256,
            mover_known(*board, mv),
        ensures
            r == self.conthist_at(self.cont_slot(mv, ply as int, *board)),
            -table_bound() <= r <= table_bound(),
    {
        let idx = self.cont_slot_exec(mv, ply, board);
        proof {
            self.lemma_wf_ranges();
        }
        self.conthist[idx]
    }

    proof fn lemma_update_conthist(self, old_self: MoveSorter, idx: int)
        requires
            old_self.wf(),
            0 <= idx < CONTHIST_LEN,
            self.conthist@.len() == CONTHIST_LEN,
            -table_bound() <= self.conthist@[idx] <= table_bound(),
            forall|j: int| 0 <= j < CONTHIST_LEN && j != idx ==> self.conthist@[j] == old_self.conthist@[j],
            self.killer_table == old_self.killer_table,
            self.countermove_table == old_self.countermove_table,
            self.history_table == old_self.history_table,
            self.conthist_stack == old_self.conthist_stack,
        ensures
            self.wf(),
            forall|i: int| 0 <= i < CONTHIST_LEN && i != idx ==> #[trigger] self.conthist_at(i) == old_self.conthist_at(i),
    {
        assert forall|i: int| 0 <= i < CONTHIST_LEN implies -table_bound() <= #[trigger] self.conthist@[i] <= table_bound() by {
            if i != idx {
                assert(self.conthist@[i] == old_self.conthist@[i]);
            }
        }
    }

    /// Raises the continuation history of a move by `depth * depth + 50`, less
    /// the higher it already is.
    pub fn insert_conthist(&mut self, mv: ChessMove, depth: i32, ply: i32, board: &cozy_chess::Board)
        requires
            old(self).wf(),
            0 <= ply < 256,
            mover_known(*board, mv),
            -20000 <= depth <= 20000,
        ensures
            final(self).wf(),
            forall|i: int|
                0 <= i < CONTHIST_LEN ==> #[trigger] final(self).conthist_at(i) == if i == old(self).cont_slot(mv, ply as int, *board) {
                    gravity_add(old(self).conthist_at(i) as int, depth * depth + 50) as i32
                } else {
                    old(self).conthist_at(i)
                },
            forall|s: int, p: int| #[trigger] final(self).killer(s, p) == old(self).killer(s, p),
            forall|s: int, f: int, t: int| #[trigger] final(self).history(s, f, t) == old(self).history(s, f, t),
            forall|f: int, t: int| #[trigger] final(self).countermove(f, t) == old(self).countermove(f, t),
            forall|p: int| #[trigger] final(self).stack_at(p) == old(self).stack_at(p),
    {
        let idx = self.cont_slot_exec(mv, ply, board);
        let conthist = self.conthist[idx];
        assert(depth * depth <= 400000000) by (nonlinear_arith)
            requires
                -20000 <= depth <= 20000,
        ;
        assert(depth * depth >= 0) by (nonlinear_arith);
        let bonus = depth * depth + 50;
        proof {
            lemma_gravity_add(conthist as int, bonus as int);
        }
        if !bonus.checked_mul(conthist).is_none() {
            let delta = bonus - bonus * conthist / 2000;
            self.conthist.set(idx, conthist + delta);
        }
        proof {
            self.lemma_update_conthist(*old(self), idx as int);
        }
    }

    /// Lowers the continuation history of a move by `depth * depth + 50`, the
    /// more the higher it is.
    pub fn decay_conthist(&mut self, mv: ChessMove, depth: i32, ply: i32, board: &cozy_chess::Board)
        requires
            old(self).wf(),
            0 <= ply < 256,
            mover_known(*board, mv),
            -20000 <= depth <= 20000,
        ensures
            final(self).wf(),
            forall|i: int|
                0 <= i < CONTHIST_LEN ==> #[trigger] final(self).conthist_at(i) == if i == old(self).cont_slot(mv, ply as int, *board) {
                    gravity_sub(old(self).conthist_at(i) as int, depth * depth + 50) as i32
                } else {
                    old(self).conthist_at(i)
                },
            forall|s: int, p: int| #[trigger] final(self).killer(s, p) == old(self).killer(s, p),
            forall|s: int, f: int, t: int| #[trigger] final(self).history(s, f, t) == old(self).history(s, f, t),
            forall|f: int, t: int| #[trigger] final(self).countermove(f, t) == old(self).countermove(f, t),
            forall|p: int| #[trigger] final(self).stack_at(p) == old(self).stack_at(p),
    {
        let idx = self.cont_slot_exec(mv, ply, board);
        let conthist = self.conthist[idx];
        assert(depth * depth <= 400000000) by (nonlinear_arith)
            requires
                -20000 <= depth <= 20000,
        ;
        assert(depth * depth >= 0) by (nonlinear_arith);
        let penalty = depth * depth + 50;
        proof {
            lemma_gravity_sub(conthist as int, penalty as int);
        }
        if !penalty.checked_mul(conthist).is_none() {
            let delta = penalty + penalty * conthist / 2000;
            self.conthist.set(idx, conthist - delta);
        }
        proof {
            self.lemma_update_conthist(*old(self), idx as int);
        }
    }
}

/// `x` placed into a list ordered by falling importance: after every entry of
/// at least its importance, before the entries of less.
pub open spec fn insert_desc(s: Seq<SortedMove>, x: SortedMove) -> Seq<SortedMove>
    decreases s.len(),
{
    if s.len() == 0 {
        seq![x]
    } else if s.last().importance >= x.importance {
        s.push(x)
    } else {
        insert_desc(s.drop_last(), x).push(s.last())
    }
}

/// The moves ordered by falling importance, moves of equal importance kept in
/// their order (what a stable sort gives).
pub open spec fn sort_desc(s: Seq<SortedMove>) -> Seq<SortedMove>
    decreases s.len(),
{
    if s.len() == 0 {
        s
    } else {
        insert_desc(sort_desc(s.drop_last()), s.last())
    }
}

pub open spec fn sorted_desc(s: Seq<SortedMove>) -> bool {
    forall|i: int, j: int| 0 <= i < j < s.len() ==> s[i].importance >= s[j].importance
}

/// Every move of the list is at least `b` important.
pub open spec fn all_at_least(s: Seq<SortedMove>, b: int) -> bool {
    forall|i: int| 0 <= i < s.len() ==> #[trigger] s[i].importance >= b
}

proof fn lemma_insert_at_least(s: Seq<SortedMove>, x: SortedMove, b: int)
    requires
        all_at_least(s, b),
        x.importance >= b,
    ensures
        all_at_least(insert_desc(s, x), b),
    decreases s.len(),
{
    if s.len() > 0 && s.last().importance < x.importance {
        lemma_insert_at_least(s.drop_last(), x, b);
        let t = insert_desc(s.drop_last(), x);
        assert forall|i: int| 0 <= i < t.push(s.last()).len() implies #[trigger] t.push(
            s.last(),
        )[i].importance >= b by {
            if i < t.len() {
                assert(t.push(s.last())[i] == t[i]);
            }
        }
    }
}

proof fn lemma_insert_sorted(s: Seq<SortedMove>, x: SortedMove)
    requires
        sorted_desc(s),
    ensures
        sorted_desc(insert_desc(s, x)),
        insert_desc(s, x).to_multiset() == s.to_multiset().insert(x),
    decreases s.len(),
{
    broadcast use vstd::seq_lib::to_multiset_build;

    if s.len() == 0 {
        assert(insert_desc(s, x) =~= s.push(x));
    } else if s.last().importance >= x.importance {
    } else {
        let d = s.drop_last();
        let l = s.last();
        assert(sorted_desc(d));
        lemma_insert_sorted(d, x);
        let t = insert_desc(d, x);
        assert(all_at_least(d, l.importance as int)) by {
            assert forall|i: int| 0 <= i < d.len() implies #[trigger] d[i].importance
                >= l.importance by {
                assert(s[i] == d[i]);
            }
        }
        lemma_insert_at_least(d, x, l.importance as int);
        let r = t.push(l);
        assert forall|i: int, j: int| 0 <= i < j < r.len() implies r[i].importance
            >= r[j].importance by {
            if j < t.len() {
                assert(r[i] == t[i] && r[j] == t[j]);
            } else {
                assert(r[i] == t[i]);
            }
        }
        assert(s =~= d.push(l));
        assert(r.to_multiset() =~= s.to_multiset().insert(x));
    }
}

/// Ordering moves by falling importance keeps every move, as often as it
/// came, and leaves no move before a more important one.
pub proof fn lemma_sort_desc_sorted_permutation(s: Seq<SortedMove>)
    ensures
        sorted_desc(sort_desc(s)),
        sort_desc(s).to_multiset() == s.to_multiset(),
    decreases s.len(),
{
    broadcast use vstd::seq_lib::to_multiset_build;

    if s.len() > 0 {
        lemma_sort_desc_sorted_permutation(s.drop_last());
        lemma_insert_sorted(sort_desc(s.drop_last()), s.last());
        assert(s =~= s.drop_last().push(s.last()));
    }
}

/// The moves of a scored list, in its order.
pub open spec fn moves_of(s: Seq<SortedMove>) -> Seq<ChessMove> {
    s.map_values(|sm: SortedMove| sm.mv)
}

proof fn lemma_insert_moves(s: Seq<SortedMove>, x: SortedMove)
    ensures
        moves_of(insert_desc(s, x)).to_multiset() == moves_of(s).to_multiset().insert(x.mv),
    decreases s.len(),
{
    broadcast use vstd::seq_lib::to_multiset_build;

    if s.len() == 0 {
        assert(moves_of(insert_desc(s, x)) =~= moves_of(s).push(x.mv));
    } else if s.last().importance >= x.importance {
        assert(moves_of(s.push(x)) =~= moves_of(s).push(x.mv));
    } else {
        let d = s.drop_last();
        let l = s.last();
        lemma_insert_moves(d, x);
        let t = insert_desc(d, x);
        assert(moves_of(t.push(l)) =~= moves_of(t).push(l.mv));
        assert(moves_of(s) =~= moves_of(d).push(l.mv));
        assert(moves_of(t.push(l)).to_multiset() =~= moves_of(s).to_multiset().insert(x.mv));
    }
}

/// Ordering a list by importance keeps its moves, each as often as it came.
pub proof fn lemma_sort_desc_moves(s: Seq<SortedMove>)
    ensures
        moves_of(sort_desc(s)).to_multiset() == moves_of(s).to_multiset(),
    decreases s.len(),
{
    broadcast use vstd::seq_lib::to_multiset_build;

    if s.len() > 0 {
        lemma_sort_desc_moves(s.drop_last());
        lemma_insert_moves(sort_desc(s.drop_last()), s.last());
        assert(moves_of(s) =~= moves_of(s.drop_last()).push(s.last().mv));
    }
}

proof fn lemma_insert_step(p: Seq<SortedMove>, x: SortedMove, j: int, i: int)
    requires
        0 < j <= i,
        i == p.len(),
        p[j - 1].importance < x.importance,
    ensures
        insert_desc(p.subrange(0, j), x) + p.subrange(j, i) == insert_desc(p.subrange(0, j - 1), x)
            + p.subrange(j - 1, i),
{
    assert(p.subrange(0, j).drop_last() =~= p.subrange(0, j - 1));
    assert(p.subrange(0, j).last() == p[j - 1]);
    assert(insert_desc(p.subrange(0, j), x) == insert_desc(p.subrange(0, j - 1), x).push(p[j - 1]));
    assert(insert_desc(p.subrange(0, j - 1), x).push(p[j - 1]) + p.subrange(j, i) =~= insert_desc(
        p.subrange(0, j - 1),
        x,
    ) + p.subrange(j - 1, i));
}

/// Sorts by falling importance, stably.
fn sort_by_importance(v: &mut Vec<SortedMove>)
    ensures
        final(v)@ == sort_desc(old(v)@),
{
    let n = v.len();
    let ghost orig = v@;
    if n == 0 {
        return;
    }
    assert(orig.subrange(0, 1).drop_last() =~= Seq::<SortedMove>::empty());
    assert(sort_desc(Seq::<SortedMove>::empty()) == Seq::<SortedMove>::empty());
    assert(sort_desc(orig.subrange(0, 1)) =~= seq![orig[0]]);
    assert(v@.subrange(0, 1) =~= seq![orig[0]]);
    let mut i: usize = 1;
    while i < n
        invariant
            1 <= i <= n,
            n == v@.len(),
            n == orig.len(),
            v@.subrange(0, i as int) == sort_desc(orig.subrange(0, i as int)),
            v@.subrange(i as int, n as int) == orig.subrange(i as int, n as int),
        decreases n - i,
    {
        let x = v[i];
        let ghost p = v@.subrange(0, i as int);
        let ghost rest = v@.subrange(i as int + 1, n as int);
        assert(rest =~= orig.subrange(i as int + 1, n as int)) by {
            assert forall|k: int| 0 <= k < rest.len() implies rest[k] == orig.subrange(i as int + 1, n as int)[k] by {
                assert(v@.subrange(i as int, n as int)[k + 1] == orig.subrange(i as int, n as int)[k + 1]);
            }
        }
        assert(x == orig[i as int]) by {
            assert(v@.subrange(i as int, n as int)[0] == v@[i as int]);
        }
        let mut j: usize = i;
        assert(p.subrange(0, j as int) =~= p);
        assert(p.subrange(j as int, i as int) =~= Seq::<SortedMove>::empty());
        assert(insert_desc(p, x) =~= insert_desc(p.subrange(0, j as int), x) + p.subrange(
            j as int,
            i as int,
        ));
        while j > 0 && v[j - 1].importance < x.importance
            invariant
                0 <= j <= i < n,
                n == v@.len(),
                p.len() == i,
                v@.subrange(0, j as int) == p.subrange(0, j as int),
                v@.subrange(j as int + 1, i as int + 1) == p.subrange(j as int, i as int),
                v@.subrange(i as int + 1, n as int) == rest,
                insert_desc(p, x) == insert_desc(p.subrange(0, j as int), x) + p.subrange(
                    j as int,
                    i as int,
                ),
            decreases j,
        {
            let prev = v[j - 1];
            assert(prev == p[j as int - 1]) by {
                assert(v@.subrange(0, j as int)[j as int - 1] == v@[j as int - 1]);
            }
            proof {
                lemma_insert_step(p, x, j as int, i as int);
            }
            let ghost before = v@;
            v.set(j, prev);
            assert(v@.subrange(0, j as int - 1) =~= p.subrange(0, j as int - 1)) by {
                assert forall|k: int| 0 <= k < j - 1 implies v@[k] == p[k] by {
                    assert(before.subrange(0, j as int)[k] == p.subrange(0, j as int)[k]);
                }
            }
            assert(v@.subrange(j as int, i as int + 1) =~= p.subrange(j as int - 1, i as int)) by {
                assert forall|k: int| j < k <= i implies v@[k] == p[k - 1] by {
                    assert(before.subrange(j as int + 1, i as int + 1)[k - j - 1] == p.subrange(j as int, i as int)[k - j - 1]);
                }
            }
            assert(v@.subrange(i as int + 1, n as int) =~= rest);
            j = j - 1;
        }
        v.set(j, x);
        proof {
            if j > 0 {
                assert(p.subrange(0, j as int).last() == p[j as int - 1]);
                assert(v@.subrange(0, j as int) =~= p.subrange(0, j as int));
            }
            assert(insert_desc(p.subrange(0, j as int), x) =~= p.subrange(0, j as int).push(x));
            assert(orig.subrange(0, i as int + 1).drop_last() =~= orig.subrange(0, i as int));
            assert(orig.subrange(0, i as int + 1).last() == orig[i as int]);
        }
        assert(v@.subrange(0, i as int + 1) =~= insert_desc(p, x));
        assert(v@.subrange(i as int + 1, n as int) =~= orig.subrange(i as int + 1, n as int));
        i = i + 1;
    }
    assert(v@ =~= v@.subrange(0, n as int));
    assert(orig =~= orig.subrange(0, n as int));
}

impl MoveSorter {
    /// A move with its ordering score: the hash move first; otherwise captures
    /// by exchange value (winning, even, losing), killers and counter moves,
    /// other quiet moves by history and twice their continuation history, and
    /// promotions (queen high, others low) whatever else they are.
    pub open spec fn scored(
        self,
        sm: SortedMove,
        tt_move: Option<ChessMove>,
        b: cozy_chess::Board,
        ply: int,
        last_move: Option<ChessMove>,
    ) -> SortedMove {
        let sm1 = if tt_move is Some && Some(sm.mv) == tt_move {
            SortedMove { importance: HASHMOVE_SCORE, ..sm }
        } else {
            sm
        };
        if sm1.importance == HASHMOVE_SCORE {
            sm1
        } else {
            let mv = sm1.mv;
            let (base0, inc0) = if sm1.movetype == MoveType::Loud {
                let cs = see_spec(b, mv);
                (
                    if cs > 0 {
                        WINNING_CAPTURE as int
                    } else if cs == 0 {
                        NEUTRAL_CAPTURE as int
                    } else {
                        LOSING_CAPTURE as int
                    },
                    cs,
                )
            } else {
                (0int, 0int)
            };
            let (base1, inc1, sm2) = if sm1.movetype == MoveType::Quiet {
                let k = self.is_killer_spec(mv, board_side(b), ply);
                let cm = self.is_countermove_spec(mv, last_move);
                let sm2 = SortedMove { is_killer: k, is_countermove: cm, ..sm1 };
                if k || cm {
                    (
                        (if k {
                            KILLER_QUIET as int
                        } else {
                            0int
                        }) + (if cm {
                            COUNTER_QUIET as int
                        } else {
                            0int
                        }),
                        inc0,
                        sm2,
                    )
                } else {
                    let h = self.history(board_side(b).to_int(), mv.from as int, mv.to as int);
                    let ch = 2 * self.conthist_at(self.cont_slot(mv, ply, b));
                    (QUIET_MOVE as int, h + ch, SortedMove { history: h, ..sm2 })
                }
            } else {
                (base0, inc0, sm1)
            };
            let base2 = match mv.promotion {
                Some(p) => if p == Piece::Queen {
                    PROMO as int
                } else {
                    UNDER_PROMO as int
                },
                None => base1,
            };
            SortedMove { importance: (base2 + inc1) as i32, ..sm2 }
        }
    }

    pub open spec fn scored_list(
        self,
        list: Seq<SortedMove>,
        tt_move: Option<ChessMove>,
        b: cozy_chess::Board,
        ply: int,
        last_move: Option<ChessMove>,
    ) -> Seq<SortedMove> {
        Seq::new(list.len(), |i: int| self.scored(list[i], tt_move, b, ply, last_move))
    }

    /// How a capture is scored, when it is not the hash move and does not
    /// promote: a capture that wins material by exchange scores
    /// `WINNING_CAPTURE` plus its gain, an even one `NEUTRAL_CAPTURE`, and one
    /// that loses material `LOSING_CAPTURE` plus its (negative) exchange
    /// value. A promoting capture scores `PROMO` (queen) or `UNDER_PROMO` plus
    /// its exchange value, and the hash move scores `HASHMOVE_SCORE`.
    pub proof fn lemma_capture_importance(
        self,
        mv: ChessMove,
        tt_move: Option<ChessMove>,
        b: cozy_chess::Board,
        ply: int,
        last_move: Option<ChessMove>,
    )
        ensures
            ({
                let r = self.scored(SortedMove::fresh(mv, 0, MoveType::Loud), tt_move, b, ply, last_move);
                let v = see_spec(b, mv);
                &&& r.mv == mv
                &&& r.movetype == MoveType::Loud
                &&& tt_move == Some(mv) ==> r.importance == HASHMOVE_SCORE
                &&& tt_move != Some(mv) && mv.promotion is None && v > 0 ==> r.importance
                    == WINNING_CAPTURE + v
                &&& tt_move != Some(mv) && mv.promotion is None && v == 0 ==> r.importance
                    == NEUTRAL_CAPTURE
                &&& tt_move != Some(mv) && mv.promotion is None && v < 0 ==> r.importance
                    == LOSING_CAPTURE + v
                &&& tt_move != Some(mv) && mv.promotion == Some(Piece::Queen) ==> r.importance == PROMO
                    + v
                &&& tt_move != Some(mv) && mv.promotion is Some && mv.promotion != Some(Piece::Queen)
                    ==> r.importance == UNDER_PROMO + v
            }),
    {
        crate::movegen::see::lemma_see_bounds(b, mv);
    }

    /// How a quiet move that is neither the hash move nor a promotion is
    /// scored: a killer `KILLER_QUIET`, a countermove `COUNTER_QUIET`, both the
    /// sum, and it is marked as such; so an even or winning capture (at least
    /// `NEUTRAL_CAPTURE`) comes before every killer and countermove, and those
    /// before any losing capture (`LOSING_CAPTURE` plus a negative exchange
    /// value, below zero).
    pub proof fn lemma_quiet_importance(
        self,
        mv: ChessMove,
        tt_move: Option<ChessMove>,
        b: cozy_chess::Board,
        ply: int,
        last_move: Option<ChessMove>,
    )
        ensures
            ({
                let r = self.scored(SortedMove::fresh(mv, 0, MoveType::Quiet), tt_move, b, ply, last_move);
                let k = self.is_killer_spec(mv, board_side(b), ply);
                let c = self.is_countermove_spec(mv, last_move);
                &&& tt_move != Some(mv) ==> r.is_killer == k && r.is_countermove == c
                &&& tt_move != Some(mv) && mv.promotion is None && k && c ==> r.importance
                    == KILLER_QUIET + COUNTER_QUIET
                &&& tt_move != Some(mv) && mv.promotion is None && k && !c ==> r.importance
                    == KILLER_QUIET
                &&& tt_move != Some(mv) && mv.promotion is None && !k && c ==> r.importance
                    == COUNTER_QUIET
                &&& NEUTRAL_CAPTURE > KILLER_QUIET + COUNTER_QUIET
                &&& COUNTER_QUIET > 0
                &&& LOSING_CAPTURE < 0
            }),
    {
    }

    /// Scoring changes no move.
    pub proof fn lemma_scored_moves(
        self,
        list: Seq<SortedMove>,
        tt_move: Option<ChessMove>,
        b: cozy_chess::Board,
        ply: int,
        last_move: Option<ChessMove>,
    )
        ensures
            moves_of(self.scored_list(list, tt_move, b, ply, last_move)) == moves_of(list),
    {
        assert(moves_of(self.scored_list(list, tt_move, b, ply, last_move)) =~= moves_of(list));
    }

    fn score_move(
        &mut self,
        sm: SortedMove,
        tt_move: Option<ChessMove>,
        board: &cozy_chess::Board,
        ply: i32,
        last_move: Option<ChessMove>,
    ) -> (r: SortedMove)
        requires
            old(self).wf(),
            board_valid(*board),
            board_legal_moves(*board).contains(sm.mv),
            0 <= ply,
            sm.movetype == MoveType::Quiet ==> ply < 256,
            last_move matches Some(lm) ==> lm.from < 64 && lm.to < 64,
        ensures
            final(self).wf(),
            r == old(self).scored(sm, tt_move, *board, ply as int, last_move),
            final(self).killer_table == old(self).killer_table,
            final(self).history_table == old(self).history_table,
            final(self).countermove_table == old(self).countermove_table,
            final(self).conthist == old(self).conthist,
            final(self).conthist_stack == old(self).conthist_stack,
    {
        proof {
            lemma_legal_mover_known(*board, sm.mv);
            self.lemma_wf_ranges();
        }
        let mut mv_info = sm;
        if tt_move.is_some() {
            if Some(mv_info.mv) == tt_move {
                mv_info.importance = HASHMOVE_SCORE;
            }
        }
        let is_tt = mv_info.importance == HASHMOVE_SCORE;
        if !is_tt {
            let mv = mv_info.mv;
            let is_promo = mv.promotion.is_some();
            let mut base: i32 = 0;
            let mut increment: i32 = 0;

            if mv_info.movetype == MoveType::Loud {
                let capture_score = self.see.see(board, mv);
                base = if capture_score > 0 {
                    WINNING_CAPTURE
                } else if capture_score == 0 {
                    NEUTRAL_CAPTURE
                } else {
                    LOSING_CAPTURE
                };
                increment = capture_score;
            }
            if mv_info.movetype == MoveType::Quiet {
                base = QUIET_MOVE;
                mv_info.is_killer = self.is_killer(mv, board, ply);
                mv_info.is_countermove = self.is_countermove(mv, last_move);
                if mv_info.is_killer || mv_info.is_countermove {
                    base = 0;
                    base = base + if mv_info.is_killer {
                        KILLER_QUIET
                    } else {
                        0
                    };
                    base = base + if mv_info.is_countermove {
                        COUNTER_QUIET
                    } else {
                        0
                    };
                } else {
                    let history = self.get_history(mv, board);
                    let conthist = 2 * self.get_conthist(mv, ply, board);
                    increment = history + conthist;
                    mv_info.history = history;
                }
            }
            if is_promo {
                let promo = match mv.promotion {
                    Some(p) => p,
                    None => Piece::Queen,
                };
                base = if promo == Piece::Queen {
                    PROMO
                } else {
                    UNDER_PROMO
                };
            }
            mv_info.importance = base + increment;
        }
        mv_info
    }

    /// Scores every move and orders the list by falling score, moves of equal
    /// score kept in their order.
    pub fn sort(
        &mut self,
        move_list: &mut Vec<SortedMove>,
        tt_move: Option<ChessMove>,
        board: &cozy_chess::Board,
        ply: i32,
        last_move: Option<ChessMove>,
    )
        requires
            old(self).wf(),
            board_valid(*board),
            forall|i: int|
                0 <= i < old(move_list)@.len() ==> board_legal_moves(*board).contains(
                    #[trigger] old(move_list)@[i].mv,
                ),
            0 <= ply,
            forall|i: int|
                0 <= i < old(move_list)@.len() && (#[trigger] old(move_list)@[i]).movetype == MoveType::Quiet ==> ply < 256,
            last_move matches Some(lm) ==> lm.from < 64 && lm.to < 64,
        ensures
            final(self).wf(),
            final(move_list)@ == sort_desc(
                old(self).scored_list(old(move_list)@, tt_move, *board, ply as int, last_move),
            ),
            forall|s: int, p: int| #[trigger] final(self).killer(s, p) == old(self).killer(s, p),
            forall|s: int, f: int, t: int| #[trigger] final(self).history(s, f, t) == old(self).history(s, f, t),
            forall|f: int, t: int| #[trigger] final(self).countermove(f, t) == old(self).countermove(f, t),
            forall|i: int| #[trigger] final(self).conthist_at(i) == old(self).conthist_at(i),
            forall|p: int| #[trigger] final(self).stack_at(p) == old(self).stack_at(p),
    {
        let ghost orig = move_list@;
        let ghost s0 = *self;
        let n = move_list.len();
        let mut i: usize = 0;
        while i < n
            invariant
                i <= n,
                n == move_list@.len(),
                n == orig.len(),
                self.wf(),
                self.killer_table == s0.killer_table,
                self.history_table == s0.history_table,
                self.countermove_table == s0.countermove_table,
                self.conthist == s0.conthist,
                self.conthist_stack == s0.conthist_stack,
                board_valid(*board),
                0 <= ply,
                forall|k: int| 0 <= k < n && (#[trigger] orig[k]).movetype == MoveType::Quiet ==> ply < 256,
                last_move matches Some(lm) ==> lm.from < 64 && lm.to < 64,
                forall|k: int| 0 <= k < n ==> board_legal_moves(*board).contains(#[trigger] orig[k].mv),
                forall|k: int| 0 <= k < i ==> #[trigger] move_list@[k] == s0.scored(orig[k], tt_move, *board, ply as int, last_move),
                forall|k: int| i <= k < n ==> #[trigger] move_list@[k] == orig[k],
            decreases n - i,
        {
            let sm = move_list[i];
            assert(sm == orig[i as int]);
            let scored = self.score_move(sm, tt_move, board, ply, last_move);
            assert(s0.scored(sm, tt_move, *board, ply as int, last_move) == scored) by {
                assert(self.killer(0, 0) == s0.killer(0, 0));
            }
            move_list.set(i, scored);
            i = i + 1;
        }
        assert(move_list@ =~= s0.scored_list(orig, tt_move, *board, ply as int, last_move));
        sort_by_importance(move_list);
    }
}

} // verus!
