//! Move generation: legal moves, captures first, each with its ordering score.

use vstd::prelude::*;
use crate::board::{board_colors, board_legal_moves, board_side, board_valid, colors, legal_moves, side_to_move};
use crate::chess::{ChessMove, Piece, bb_has, has};
use crate::movegen::see::{lemma_see_bounds, see_spec};
use crate::movegen::movesorter::{
    MoveSorter, MoveType, gravity_add, gravity_sub, lemma_sort_desc_moves,
    lemma_sort_desc_sorted_permutation, moves_of, sort_desc, sorted_desc,
};

verus! {

/// A move with what ordering knows of it.
#[derive(Clone, Copy, Debug, PartialEq, Eq, Structural)]
pub struct SortedMove {
    pub mv: ChessMove,
    pub importance: i32,
    pub movetype: MoveType,
    pub is_killer: bool,
    pub is_countermove: bool,
    pub history: i32,
}

impl SortedMove {
    pub open spec fn fresh(mv: ChessMove, importance: i32, movetype: MoveType) -> SortedMove {
        SortedMove {
            mv: mv,
            importance: importance,
            movetype: movetype,
            is_killer: false,
            is_countermove: false,
            history: 0,
        }
    }

    pub fn new(mv: ChessMove, importance: i32, movetype: MoveType) -> (sm: SortedMove)
        ensures
            sm == SortedMove::fresh(mv, importance, movetype),
    {
        SortedMove {
            mv: mv,
            importance: importance,
            movetype: movetype,
            is_killer: false,
            is_countermove: false,
            history: 0,
        }
    }

    /// A quiet move becomes the killer of its ply; a loud one changes nothing.
    pub fn insert_killer(&mut self, move_sorter: &mut MoveSorter, ply: i32, board: &cozy_chess::Board)
        requires
            old(move_sorter).wf(),
            ply >= 0,
        ensures
            *final(self) == *old(self),
            final(move_sorter).wf(),
            old(self).movetype == MoveType::Loud ==> *final(move_sorter) == *old(move_sorter),
            old(self).movetype == MoveType::Quiet && ply < 100 ==> final(move_sorter).killer(
                board_side(*board).to_int(),
                ply as int,
            ) == Some(old(self).mv),
    {
        if self.movetype == MoveType::Quiet {
            move_sorter.add_killer(self.mv, ply, board);
        }
    }

    /// A quiet move gets its history raised; a loud one changes nothing.
    pub fn insert_history(&mut self, move_sorter: &mut MoveSorter, depth: i32, board: &cozy_chess::Board)
        requires
            old(move_sorter).wf(),
            old(self).mv.from < 64,
            old(self).mv.to < 64,
            -20000 <= depth <= 20000,
        ensures
            *final(self) == *old(self),
            final(move_sorter).wf(),
            old(self).movetype == MoveType::Loud ==> *final(move_sorter) == *old(move_sorter),
            old(self).movetype == MoveType::Quiet ==> final(move_sorter).history(
                board_side(*board).to_int(),
                old(self).mv.from as int,
                old(self).mv.to as int,
            ) == gravity_add(
                old(move_sorter).history(
                    board_side(*board).to_int(),
                    old(self).mv.from as int,
                    old(self).mv.to as int,
                ) as int,
                depth * depth + 50,
            ) as i32,
    {
        if self.movetype == MoveType::Quiet {
            move_sorter.add_history(self.mv, depth, board);
        }
    }

    /// A quiet move becomes the answer to the last move; nothing changes for a
    /// loud move or without a last move.
    pub fn insert_countermove(&mut self, move_sorter: &mut MoveSorter, last_move: Option<ChessMove>)
        requires
            old(move_sorter).wf(),
            last_move matches Some(lm) ==> lm.from < 64 && lm.to < 64,
        ensures
            *final(self) == *old(self),
            final(move_sorter).wf(),
            !(old(self).movetype == MoveType::Quiet && last_move is Some) ==> *final(move_sorter) == *old(
                move_sorter,
            ),
            old(self).movetype == MoveType::Quiet && last_move is Some ==> final(move_sorter).countermove(
                last_move.unwrap().from as int,
                last_move.unwrap().to as int,
            ) == Some(old(self).mv),
    {
        if self.movetype == MoveType::Quiet && last_move.is_some() {
            match last_move {
                Some(lm) => move_sorter.add_countermove(self.mv, lm),
                None => {},
            }
        }
    }

    /// A quiet move gets its history lowered; a loud one changes nothing.
    pub fn decay_history(&mut self, move_sorter: &mut MoveSorter, depth: i32, board: &cozy_chess::Board)
        requires
            old(move_sorter).wf(),
            old(self).mv.from < 64,
            old(self).mv.to < 64,
            -20000 <= depth <= 20000,
        ensures
            *final(self) == *old(self),
            final(move_sorter).wf(),
            old(self).movetype == MoveType::Loud ==> *final(move_sorter) == *old(move_sorter),
            old(self).movetype == MoveType::Quiet ==> final(move_sorter).history(
                board_side(*board).to_int(),
                old(self).mv.from as int,
                old(self).mv.to as int,
            ) == gravity_sub(
                old(move_sorter).history(
                    board_side(*board).to_int(),
                    old(self).mv.from as int,
                    old(self).mv.to as int,
                ) as int,
                depth * depth,
            ) as i32,
    {
        if self.movetype == MoveType::Quiet {
            move_sorter.decay_history(self.mv, depth, board);
        }
    }
}

/// The legal moves that capture (`loud`) or do not capture an enemy piece, in
/// generation order, the hash move left out when `skip_hash` is set.
pub open spec fn pick_moves(
    moves: Seq<ChessMove>,
    their: u64,
    tt_move: Option<ChessMove>,
    skip_hash: bool,
    loud: bool,
) -> Seq<SortedMove>
    decreases moves.len(),
{
    if moves.len() == 0 {
        Seq::empty()
    } else {
        let rest = pick_moves(moves.drop_last(), their, tt_move, skip_hash, loud);
        let mv = moves.last();
        if has(their, mv.to as int) == loud && !(skip_hash && Some(mv) == tt_move) {
            rest.push(
                SortedMove::fresh(
                    mv,
                    0,
                    if loud {
                        MoveType::Loud
                    } else {
                        MoveType::Quiet
                    },
                ),
            )
        } else {
            rest
        }
    }
}

/// The moves other than the hash move when it is to be skipped, in order.
pub open spec fn unskipped(moves: Seq<ChessMove>, tt_move: Option<ChessMove>, skip_hash: bool) -> Seq<
    ChessMove,
>
    decreases moves.len(),
{
    if moves.len() == 0 {
        Seq::empty()
    } else {
        let rest = unskipped(moves.drop_last(), tt_move, skip_hash);
        if skip_hash && Some(moves.last()) == tt_move {
            rest
        } else {
            rest.push(moves.last())
        }
    }
}

proof fn lemma_picks_split(moves: Seq<ChessMove>, their: u64, tt_move: Option<ChessMove>, skip_hash: bool)
    ensures
        (moves_of(pick_moves(moves, their, tt_move, skip_hash, true)) + moves_of(
            pick_moves(moves, their, tt_move, skip_hash, false),
        )).to_multiset() == unskipped(moves, tt_move, skip_hash).to_multiset(),
    decreases moves.len(),
{
    broadcast use vstd::seq_lib::to_multiset_build;
    broadcast use vstd::multiset::group_multiset_axioms;

    if moves.len() == 0 {
        assert(moves_of(pick_moves(moves, their, tt_move, skip_hash, true)) =~= Seq::<ChessMove>::empty());
        assert(moves_of(pick_moves(moves, their, tt_move, skip_hash, false)) =~= Seq::<ChessMove>::empty());
        assert(Seq::<ChessMove>::empty() + Seq::<ChessMove>::empty() =~= Seq::<ChessMove>::empty());
    } else {
        let d = moves.drop_last();
        let m = moves.last();
        lemma_picks_split(d, their, tt_move, skip_hash);
        let u = unskipped(d, tt_move, skip_hash);
        let a = moves_of(pick_moves(d, their, tt_move, skip_hash, true));
        let c = moves_of(pick_moves(d, their, tt_move, skip_hash, false));
        vstd::seq_lib::lemma_multiset_commutative(a, c);
        if !(skip_hash && Some(m) == tt_move) {
            let loud = has(their, m.to as int);
            let sm = SortedMove::fresh(
                m,
                0,
                if loud {
                    MoveType::Loud
                } else {
                    MoveType::Quiet
                },
            );
            if loud {
                assert(moves_of(pick_moves(moves, their, tt_move, skip_hash, true)) =~= a.push(m));
                assert(moves_of(pick_moves(moves, their, tt_move, skip_hash, false)) =~= c);
                vstd::seq_lib::lemma_multiset_commutative(a.push(m), c);
                assert((a.push(m) + c).to_multiset() =~= (a + c).to_multiset().insert(m));
                assert(unskipped(moves, tt_move, skip_hash) == u.push(m));
                assert(u.push(m).to_multiset() =~= u.to_multiset().insert(m));
            } else {
                assert(moves_of(pick_moves(moves, their, tt_move, skip_hash, true)) =~= a);
                assert(moves_of(pick_moves(moves, their, tt_move, skip_hash, false)) =~= c.push(m));
                assert(a + c.push(m) =~= (a + c).push(m));
                assert(unskipped(moves, tt_move, skip_hash) == u.push(m));
                assert(u.push(m).to_multiset() =~= u.to_multiset().insert(m));
                assert((a + c).push(m).to_multiset() =~= (a + c).to_multiset().insert(m));
            }
        } else {
            assert(moves_of(pick_moves(moves, their, tt_move, skip_hash, true)) =~= a);
            assert(moves_of(pick_moves(moves, their, tt_move, skip_hash, false)) =~= c);
            assert(unskipped(moves, tt_move, skip_hash) == u);
        }
    }
}

/// Move generation hands out the legal moves, the hash move left out when it
/// is to be skipped, each once, captures or not, ordered by falling
/// importance.
pub proof fn lemma_move_gen_moves(
    sorter: MoveSorter,
    b: cozy_chess::Board,
    tt_move: Option<ChessMove>,
    ply: int,
    skip_hash: bool,
    last_move: Option<ChessMove>,
)
    ensures
        ({
            let legal = board_legal_moves(b);
            let their = their_pieces(b);
            let r = sort_desc(
                sorter.scored_list(
                    pick_moves(legal, their, tt_move, skip_hash, true) + pick_moves(
                        legal,
                        their,
                        tt_move,
                        skip_hash,
                        false,
                    ),
                    tt_move,
                    b,
                    ply,
                    last_move,
                ),
            );
            &&& sorted_desc(r)
            &&& moves_of(r).to_multiset() == unskipped(legal, tt_move, skip_hash).to_multiset()
        }),
{
    let legal = board_legal_moves(b);
    let their = their_pieces(b);
    let p = pick_moves(legal, their, tt_move, skip_hash, true) + pick_moves(
        legal,
        their,
        tt_move,
        skip_hash,
        false,
    );
    let sc = sorter.scored_list(p, tt_move, b, ply, last_move);
    lemma_sort_desc_sorted_permutation(sc);
    lemma_sort_desc_moves(sc);
    sorter.lemma_scored_moves(p, tt_move, b, ply, last_move);
    assert(moves_of(p) =~= moves_of(pick_moves(legal, their, tt_move, skip_hash, true)) + moves_of(
        pick_moves(legal, their, tt_move, skip_hash, false),
    ));
    lemma_picks_split(legal, their, tt_move, skip_hash);
}

/// The moves that land on a square of `their`, in order.
pub open spec fn captures(moves: Seq<ChessMove>, their: u64) -> Seq<ChessMove>
    decreases moves.len(),
{
    if moves.len() == 0 {
        Seq::empty()
    } else {
        let rest = captures(moves.drop_last(), their);
        if has(their, moves.last().to as int) {
            rest.push(moves.last())
        } else {
            rest
        }
    }
}

proof fn lemma_picked_captures(moves: Seq<ChessMove>, their: u64, tt_move: Option<ChessMove>)
    ensures
        moves_of(pick_moves(moves, their, tt_move, false, true)) == captures(moves, their),
    decreases moves.len(),
{
    if moves.len() == 0 {
        assert(moves_of(pick_moves(moves, their, tt_move, false, true)) =~= captures(moves, their));
    } else {
        lemma_picked_captures(moves.drop_last(), their, tt_move);
        let p = pick_moves(moves.drop_last(), their, tt_move, false, true);
        if has(their, moves.last().to as int) {
            assert(moves_of(pick_moves(moves, their, tt_move, false, true)) =~= moves_of(p).push(
                moves.last(),
            ));
        }
    }
}

/// Capture generation hands out the legal captures, each once, ordered by
/// falling importance.
pub proof fn lemma_qmove_gen_moves(
    sorter: MoveSorter,
    b: cozy_chess::Board,
    tt_move: Option<ChessMove>,
    ply: int,
)
    ensures
        ({
            let legal = board_legal_moves(b);
            let their = their_pieces(b);
            let r = sort_desc(
                sorter.scored_list(pick_moves(legal, their, tt_move, false, true), tt_move, b, ply, None),
            );
            &&& sorted_desc(r)
            &&& moves_of(r).to_multiset() == captures(legal, their).to_multiset()
        }),
{
    let legal = board_legal_moves(b);
    let their = their_pieces(b);
    let p = pick_moves(legal, their, tt_move, false, true);
    let sc = sorter.scored_list(p, tt_move, b, ply, None);
    lemma_sort_desc_sorted_permutation(sc);
    lemma_sort_desc_moves(sc);
    sorter.lemma_scored_moves(p, tt_move, b, ply, None);
    lemma_picked_captures(legal, their, tt_move);
}

pub open spec fn their_pieces(b: cozy_chess::Board) -> u64 {
    board_colors(b)[board_side(b).opp().to_int()]
}

/// A move that can be played on `b`: a legal move, and a capture where it is
/// marked loud.
pub open spec fn sound_move(b: cozy_chess::Board, sm: SortedMove) -> bool {
    &&& board_legal_moves(b).contains(sm.mv)
    &&& sm.movetype == MoveType::Loud ==> has(their_pieces(b), sm.mv.to as int)
}

/// Scoring and ordering a list of sound moves leaves every move sound.
proof fn lemma_ordered_sound(
    sorter: MoveSorter,
    list: Seq<SortedMove>,
    tt_move: Option<ChessMove>,
    b: cozy_chess::Board,
    ply: int,
    last_move: Option<ChessMove>,
)
    requires
        forall|i: int| 0 <= i < list.len() ==> sound_move(b, #[trigger] list[i]),
    ensures
        forall|i: int|
            0 <= i < sort_desc(sorter.scored_list(list, tt_move, b, ply, last_move)).len() ==> sound_move(
                b,
                #[trigger] sort_desc(sorter.scored_list(list, tt_move, b, ply, last_move))[i],
            ),
{
    broadcast use vstd::seq_lib::to_multiset_contains;

    let sc = sorter.scored_list(list, tt_move, b, ply, last_move);
    let r = sort_desc(sc);
    lemma_sort_desc_sorted_permutation(sc);
    assert forall|i: int| 0 <= i < r.len() implies sound_move(b, #[trigger] r[i]) by {
        assert(r.contains(r[i]));
        assert(r.to_multiset().count(r[i]) > 0);
        assert(sc.to_multiset().count(r[i]) > 0);
        assert(sc.contains(r[i]));
        let j = choose|j: int| 0 <= j < sc.len() && sc[j] == r[i];
        assert(sc[j] == sorter.scored(list[j], tt_move, b, ply, last_move));
        assert(sound_move(b, list[j]));
    }
}

/// A capture that quiescence search may play: the hash move, a queen
/// promotion, or a capture that does not lose material by exchange.
pub open spec fn capture_searchable(b: cozy_chess::Board, mv: ChessMove, tt_move: Option<ChessMove>) -> bool {
    Some(mv) == tt_move || mv.promotion == Some(Piece::Queen) || see_spec(b, mv) >= 0
}

/// A capture scores at least zero only as the hash move, a queen promotion or
/// a capture that does not lose material by exchange.
proof fn lemma_capture_score(
    sorter: MoveSorter,
    mv: ChessMove,
    tt_move: Option<ChessMove>,
    b: cozy_chess::Board,
    ply: int,
    last_move: Option<ChessMove>,
)
    ensures
        sorter.scored(SortedMove::fresh(mv, 0, MoveType::Loud), tt_move, b, ply, last_move).importance
            >= 0 ==> capture_searchable(b, mv, tt_move),
{
    lemma_see_bounds(b, mv);
}

/// Scoring and ordering a list of fresh captures keeps that rule for every
/// capture that scores at least zero.
proof fn lemma_ordered_captures(
    sorter: MoveSorter,
    list: Seq<SortedMove>,
    tt_move: Option<ChessMove>,
    b: cozy_chess::Board,
    ply: int,
    last_move: Option<ChessMove>,
)
    requires
        forall|i: int| 0 <= i < list.len() ==> #[trigger] list[i] == SortedMove::fresh(list[i].mv, 0, MoveType::Loud),
    ensures
        forall|i: int|
            0 <= i < sort_desc(sorter.scored_list(list, tt_move, b, ply, last_move)).len()
                && (#[trigger] sort_desc(sorter.scored_list(list, tt_move, b, ply, last_move))[i]).importance
                >= 0 ==> capture_searchable(
                b,
                sort_desc(sorter.scored_list(list, tt_move, b, ply, last_move))[i].mv,
                tt_move,
            ),
{
    broadcast use vstd::seq_lib::to_multiset_contains;

    let sc = sorter.scored_list(list, tt_move, b, ply, last_move);
    let r = sort_desc(sc);
    lemma_sort_desc_sorted_permutation(sc);
    assert forall|i: int| 0 <= i < r.len() && (#[trigger] r[i]).importance >= 0 implies capture_searchable(
        b,
        r[i].mv,
        tt_move,
    ) by {
        assert(r.contains(r[i]));
        assert(r.to_multiset().count(r[i]) > 0);
        assert(sc.to_multiset().count(r[i]) > 0);
        assert(sc.contains(r[i]));
        let j = choose|j: int| 0 <= j < sc.len() && sc[j] == r[i];
        assert(sc[j] == sorter.scored(list[j], tt_move, b, ply, last_move));
        lemma_capture_score(sorter, list[j].mv, tt_move, b, ply, last_move);
    }
}

pub struct MoveGen {
    pub sorter: MoveSorter,
}

/// Collects the capturing (or the non-capturing) moves of `moves`.
fn collect(
    list: &mut Vec<SortedMove>,
    moves: &Vec<ChessMove>,
    their: u64,
    tt_move: Option<ChessMove>,
    skip_hash: bool,
    loud: bool,
)
    requires
        forall|i: int| 0 <= i < moves@.len() ==> #[trigger] moves@[i].to < 64,
    ensures
        final(list)@ == old(list)@ + pick_moves(moves@, their, tt_move, skip_hash, loud),
{
    let ghost start = list@;
    let mut i: usize = 0;
    while i < moves.len()
        invariant
            i <= moves@.len(),
            forall|k: int| 0 <= k < moves@.len() ==> #[trigger] moves@[k].to < 64,
            list@ == start + pick_moves(moves@.subrange(0, i as int), their, tt_move, skip_hash, loud),
        decreases moves@.len() - i,
    {
        let mv = moves[i];
        assert(moves@.subrange(0, i as int + 1).drop_last() =~= moves@.subrange(0, i as int));
        assert(moves@.subrange(0, i as int + 1).last() == mv);
        let skip = match tt_move {
            Some(t) => skip_hash && t == mv,
            None => false,
        };
        if bb_has(their, mv.to) == loud && !skip {
            let movetype = if loud {
                MoveType::Loud
            } else {
                MoveType::Quiet
            };
            list.push(SortedMove::new(mv, 0, movetype));
        }
        i = i + 1;
    }
    assert(moves@.subrange(0, moves@.len() as int) =~= moves@);
}

proof fn lemma_picked_legal(
    moves: Seq<ChessMove>,
    their: u64,
    tt_move: Option<ChessMove>,
    skip_hash: bool,
    loud: bool,
)
    ensures
        forall|i: int|
            0 <= i < pick_moves(moves, their, tt_move, skip_hash, loud).len() ==> moves.contains(
                #[trigger] pick_moves(moves, their, tt_move, skip_hash, loud)[i].mv,
            ) && (pick_moves(moves, their, tt_move, skip_hash, loud)[i].movetype == MoveType::Loud
                ==> has(their, pick_moves(moves, their, tt_move, skip_hash, loud)[i].mv.to as int))
                && pick_moves(moves, their, tt_move, skip_hash, loud)[i] == SortedMove::fresh(
                pick_moves(moves, their, tt_move, skip_hash, loud)[i].mv,
                0,
                if loud {
                    MoveType::Loud
                } else {
                    MoveType::Quiet
                },
            ),
    decreases moves.len(),
{
    if moves.len() > 0 {
        lemma_picked_legal(moves.drop_last(), their, tt_move, skip_hash, loud);
        let rest = pick_moves(moves.drop_last(), their, tt_move, skip_hash, loud);
        assert forall|i: int|
            0 <= i < pick_moves(moves, their, tt_move, skip_hash, loud).len() implies moves.contains(
                #[trigger] pick_moves(moves, their, tt_move, skip_hash, loud)[i].mv,
            ) && (pick_moves(moves, their, tt_move, skip_hash, loud)[i].movetype == MoveType::Loud
                ==> has(their, pick_moves(moves, their, tt_move, skip_hash, loud)[i].mv.to as int))
                && pick_moves(moves, their, tt_move, skip_hash, loud)[i] == SortedMove::fresh(
                pick_moves(moves, their, tt_move, skip_hash, loud)[i].mv,
                0,
                if loud {
                    MoveType::Loud
                } else {
                    MoveType::Quiet
                },
            ) by {
            if i < rest.len() {
                let m = rest[i].mv;
                assert(moves.drop_last().contains(m));
                let k = choose|k: int| 0 <= k < moves.drop_last().len() && moves.drop_last()[k] == m;
                assert(moves[k] == m);
            } else {
                assert(moves[moves.len() - 1] == moves.last());
            }
        }
    }
}

impl MoveGen {
    pub fn new() -> (g: MoveGen)
        ensures
            g.sorter.wf(),
            g.sorter.empty_tables(),
    {
        MoveGen { sorter: MoveSorter::new() }
    }

    /// All legal moves, captures then quiet moves (the hash move left out when
    /// `skip_hash` is set), scored and ordered by the sorter.
    pub fn move_gen(
        &mut self,
        board: &cozy_chess::Board,
        tt_move: Option<ChessMove>,
        ply: i32,
        skip_hash: bool,
        last_move: Option<ChessMove>,
    ) -> (r: Vec<SortedMove>)
        requires
            old(self).sorter.wf(),
            board_valid(*board),
            0 <= ply < 256,
            last_move matches Some(lm) ==> lm.from < 64 && lm.to < 64,
        ensures
            final(self).sorter.wf(),
            r@ == sort_desc(
                old(self).sorter.scored_list(
                    pick_moves(board_legal_moves(*board), their_pieces(*board), tt_move, skip_hash, true)
                        + pick_moves(
                        board_legal_moves(*board),
                        their_pieces(*board),
                        tt_move,
                        skip_hash,
                        false,
                    ),
                    tt_move,
                    *board,
                    ply as int,
                    last_move,
                ),
            ),
            forall|i: int| 0 <= i < r@.len() ==> sound_move(*board, #[trigger] r@[i]),
    {
        let mut move_list: Vec<SortedMove> = Vec::new();
        let color = side_to_move(board);
        let their = colors(board, color.other());
        let moves = legal_moves(board);
        collect(&mut move_list, &moves, their, tt_move, skip_hash, true);
        collect(&mut move_list, &moves, their, tt_move, skip_hash, false);
        proof {
            lemma_picked_legal(moves@, their, tt_move, skip_hash, true);
            lemma_picked_legal(moves@, their, tt_move, skip_hash, false);
            let a = pick_moves(moves@, their, tt_move, skip_hash, true);
            let b = pick_moves(moves@, their, tt_move, skip_hash, false);
            assert(move_list@ =~= a + b);
            assert forall|i: int| 0 <= i < move_list@.len() implies sound_move(*board, #[trigger] move_list@[i]) by {
                if i < a.len() {
                    assert(move_list@[i] == a[i]);
                } else {
                    assert(move_list@[i] == b[i - a.len()]);
                }
            }
        }
        let ghost unsorted = move_list@;
        let ghost sorter0 = self.sorter;
        self.sorter.sort(&mut move_list, tt_move, board, ply, last_move);
        proof {
            lemma_ordered_sound(sorter0, unsorted, tt_move, *board, ply as int, last_move);
        }
        move_list
    }

    /// The legal captures, scored and ordered by the sorter.
    pub fn qmove_gen(&mut self, board: &cozy_chess::Board, tt_move: Option<ChessMove>, ply: i32) -> (r:
        Vec<SortedMove>)
        requires
            old(self).sorter.wf(),
            board_valid(*board),
            0 <= ply,
        ensures
            final(self).sorter.wf(),
            r@ == sort_desc(
                old(self).sorter.scored_list(
                    pick_moves(board_legal_moves(*board), their_pieces(*board), tt_move, false, true),
                    tt_move,
                    *board,
                    ply as int,
                    None,
                ),
            ),
            forall|i: int| 0 <= i < r@.len() ==> sound_move(*board, #[trigger] r@[i]),
            forall|i: int|
                0 <= i < r@.len() && (#[trigger] r@[i]).importance >= 0 ==> capture_searchable(
                    *board,
                    r@[i].mv,
                    tt_move,
                ),
    {
        let mut move_list: Vec<SortedMove> = Vec::new();
        let color = side_to_move(board);
        let their = colors(board, color.other());
        let moves = legal_moves(board);
        collect(&mut move_list, &moves, their, tt_move, false, true);
        proof {
            lemma_picked_legal(moves@, their, tt_move, false, true);
            assert(move_list@ =~= pick_moves(moves@, their, tt_move, false, true));
            assert forall|i: int| 0 <= i < move_list@.len() implies sound_move(*board, #[trigger] move_list@[i])
                && move_list@[i] == SortedMove::fresh(move_list@[i].mv, 0, MoveType::Loud) by {
                assert(move_list@[i] == pick_moves(moves@, their, tt_move, false, true)[i]);
            }
        }
        let ghost unsorted = move_list@;
        let ghost sorter0 = self.sorter;
        self.sorter.sort(&mut move_list, tt_move, board, ply, None);
        proof {
            lemma_ordered_sound(sorter0, unsorted, tt_move, *board, ply as int, None);
            lemma_ordered_captures(sorter0, unsorted, tt_move, *board, ply as int, None);
        }
        move_list
    }
}

} // verus!
