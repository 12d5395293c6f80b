//! The transposition table: one slot per hash bucket, each holding an entry
//! packed into 64 bits and the position hash xored with those bits.

use vstd::prelude::*;
use crate::board::{board_hash, hash};
use crate::chess::{ChessMove, Piece};
use crate::eval::score::CHECKMATE_DEFINITE;

verus! {

/// How the stored score bounds the true score.
#[derive(Clone, Copy, Debug, PartialEq, Eq, Structural)]
pub enum NodeKind {
    Exact,
    UpperBound,
    LowerBound,
    Null,
}

/// What a probe gives back.
#[derive(Clone, Copy, Debug, PartialEq, Eq, Structural)]
pub struct TTEntry {
    pub best_move: Option<ChessMove>,
    pub eval: i32,
    pub depth: i32,
    pub node_kind: NodeKind,
}

/// One bucket: the position hash xored with the data, and the data.
#[derive(Clone, Copy, Debug, PartialEq, Eq, Structural)]
pub struct TTSlot {
    pub position_hash: u64,
    pub data: u64,
}

/// The fields of an entry before they are packed.
#[derive(Clone, Copy, Debug, PartialEq, Eq, Structural)]
pub struct EncodedEntry {
    pub eval: i32,
    pub mv_byte: u16,
    pub depth: u8,
    pub node_kind: u8,
}

/// The number of slots: 16 MiB of 16-byte slots.
pub const TT_LENGTH: u64 = 1048576;

/// The largest stored score (in either direction) that the search writes to
/// the table, so that reading it back at any ply of a search stays an `i32`.
pub const TT_SCORE_LIMIT: i32 = 2000000000;

/// A slot is empty or holds a score within `TT_SCORE_LIMIT`.
pub open spec fn slot_score_bounded(s: TTSlot) -> bool {
    s.data == 0 || -TT_SCORE_LIMIT <= unpack_entry_spec(s.data).eval <= TT_SCORE_LIMIT
}

/// Turns a score relative to the root into one relative to the node `ply` plies
/// down: mate scores move toward zero by `ply`.
pub open spec fn add_mate_spec(eval: int, ply: int) -> int {
    if eval < -CHECKMATE_DEFINITE {
        eval + ply
    } else if eval > CHECKMATE_DEFINITE {
        eval - ply
    } else {
        eval
    }
}

/// The inverse of `add_mate_spec`: mate scores move away from zero by `ply`.
pub open spec fn remove_mate_spec(eval: int, ply: int) -> int {
    if eval < -CHECKMATE_DEFINITE {
        eval - ply
    } else if eval > CHECKMATE_DEFINITE {
        eval + ply
    } else {
        eval
    }
}

pub fn add_mate_score(eval: i32, ply: i32) -> (r: i32)
    requires
        i32::MIN <= add_mate_spec(eval as int, ply as int) <= i32::MAX,
    ensures
        r == add_mate_spec(eval as int, ply as int),
{
    if eval < -CHECKMATE_DEFINITE {
        eval + ply
    } else if eval > CHECKMATE_DEFINITE {
        eval - ply
    } else {
        eval
    }
}

pub fn remove_mate_score(eval: i32, ply: i32) -> (r: i32)
    requires
        i32::MIN <= remove_mate_spec(eval as int, ply as int) <= i32::MAX,
    ensures
        r == remove_mate_spec(eval as int, ply as int),
{
    if eval < -CHECKMATE_DEFINITE {
        eval - ply
    } else if eval > CHECKMATE_DEFINITE {
        eval + ply
    } else {
        eval
    }
}

/// Storing a score at some ply and reading it back at the same ply gives it
/// back.
pub proof fn lemma_mate_score_roundtrip(eval: int, ply: int)
    requires
        ply >= 0,
    ensures
        add_mate_spec(remove_mate_spec(eval, ply), ply) == eval,
{
}

/// Sixteen bits for a move: six for `from`, six for `to`, four for the promotion
/// (`0b1111` for none).
pub open spec fn move_bits_spec(mv: ChessMove) -> u16 {
    ((mv.from as u16) << 10u16) | ((mv.to as u16) << 4u16) | match mv.promotion {
        Some(p) => p.to_int() as u16,
        None => 15u16,
    }
}

pub open spec fn piece_try_index(i: int) -> Option<Piece> {
    if 0 <= i < 6 {
        Some(Piece::of_int(i))
    } else {
        None
    }
}

pub open spec fn unpack_move_spec(bits: u16) -> ChessMove {
    ChessMove {
        from: ((bits >> 10u16) & 63u16) as u8,
        to: ((bits >> 4u16) & 63u16) as u8,
        promotion: piece_try_index((bits & 15u16) as int),
    }
}

pub fn pack_move(mv: ChessMove) -> (bits: u16)
    requires
        mv.from < 64,
        mv.to < 64,
    ensures
        bits == move_bits_spec(mv),
{
    let mut move_bits: u16 = 0;
    move_bits = (move_bits << 6) | mv.from as u16;
    move_bits = (move_bits << 6) | mv.to as u16;
    let promo: u16 = match mv.promotion {
        Some(p) => p.index() as u16,
        None => 15,
    };
    move_bits = (move_bits << 4) | promo;
    let from = mv.from as u16;
    let to = mv.to as u16;
    assert(((((0u16 << 6u16) | from) << 6u16) | to) << 4u16 | promo == (from << 10u16) | (to << 4u16)
        | promo) by (bit_vector)
        requires
            from < 64,
            to < 64,
    ;
    move_bits
}

pub fn unpack_move(bits: u16) -> (mv: ChessMove)
    ensures
        mv == unpack_move_spec(bits),
        mv.from < 64,
        mv.to < 64,
{
    let mut move_bits = bits;
    let promotion = move_bits & 0b1111;
    move_bits = move_bits >> 4;
    let to = move_bits & 0b111111;
    move_bits = move_bits >> 6;
    let from = move_bits & 0b111111;
    assert((bits >> 4u16) >> 6u16 == bits >> 10u16) by (bit_vector);
    assert(from < 64 && to < 64) by (bit_vector)
        requires
            from == (bits >> 10u16) & 63u16,
            to == (bits >> 4u16) & 63u16,
    ;
    let promo: Option<Piece> = if promotion < 6 {
        Some(Piece::from_index(promotion as usize))
    } else {
        None
    };
    ChessMove { from: from as u8, to: to as u8, promotion: promo }
}

/// Unpacking a packed move gives it back.
pub proof fn lemma_move_roundtrip(mv: ChessMove)
    requires
        mv.from < 64,
        mv.to < 64,
    ensures
        unpack_move_spec(move_bits_spec(mv)) == mv,
{
    let f = mv.from as u16;
    let t = mv.to as u16;
    let p: u16 = match mv.promotion {
        Some(pc) => pc.to_int() as u16,
        None => 15u16,
    };
    assert(((((f << 10u16) | (t << 4u16) | p) >> 10u16) & 63u16) == f && ((((f << 10u16) | (t
        << 4u16) | p) >> 4u16) & 63u16) == t && (((f << 10u16) | (t << 4u16) | p) & 15u16) == p)
        by (bit_vector)
        requires
            f < 64,
            t < 64,
            p < 16,
    ;
}

pub open spec fn node_kind_code(k: NodeKind) -> u8 {
    match k {
        NodeKind::Exact => 0,
        NodeKind::UpperBound => 1,
        NodeKind::LowerBound => 2,
        NodeKind::Null => 3,
    }
}

pub open spec fn node_kind_of(code: u8) -> NodeKind {
    if code == 0 {
        NodeKind::Exact
    } else if code == 1 {
        NodeKind::UpperBound
    } else if code == 2 {
        NodeKind::LowerBound
    } else {
        NodeKind::Null
    }
}

/// The 64-bit word of an entry: the score in the low 32 bits, then the move,
/// the depth and the node kind, as the `repr(C)` layout lies on a
/// little-endian machine.
pub open spec fn pack_entry_spec(e: EncodedEntry) -> u64 {
    (e.eval as u32 as u64) | ((e.mv_byte as u64) << 32u64) | ((e.depth as u64) << 48u64) | ((
    e.node_kind as u64) << 56u64)
}

pub open spec fn unpack_entry_spec(x: u64) -> EncodedEntry {
    EncodedEntry {
        eval: (x & 0xFFFF_FFFFu64) as u32 as i32,
        mv_byte: ((x >> 32u64) & 0xFFFFu64) as u16,
        depth: ((x >> 48u64) & 0xFFu64) as u8,
        node_kind: (x >> 56u64) as u8,
    }
}

pub fn pack_entry(e: EncodedEntry) -> (x: u64)
    ensures
        x == pack_entry_spec(e),
{
    (e.eval as u32 as u64) | ((e.mv_byte as u64) << 32) | ((e.depth as u64) << 48) | ((
    e.node_kind as u64) << 56)
}

pub fn unpack_entry(x: u64) -> (e: EncodedEntry)
    ensures
        e == unpack_entry_spec(x),
{
    EncodedEntry {
        eval: (x & 0xFFFF_FFFF) as u32 as i32,
        mv_byte: ((x >> 32) & 0xFFFF) as u16,
        depth: ((x >> 48) & 0xFF) as u8,
        node_kind: (x >> 56) as u8,
    }
}

/// Unpacking a packed entry gives it back, and only the all-zero entry packs to 0.
pub proof fn lemma_entry_roundtrip(e: EncodedEntry)
    ensures
        unpack_entry_spec(pack_entry_spec(e)) == e,
        (pack_entry_spec(e) == 0) == (e.eval == 0 && e.mv_byte == 0 && e.depth == 0
            && e.node_kind == 0),
{
    let ev = e.eval;
    let m = e.mv_byte;
    let d = e.depth;
    let k = e.node_kind;
    assert(((((ev as u32 as u64) | ((m as u64) << 32u64) | ((d as u64) << 48u64) | ((k as u64)
        << 56u64)) & 0xFFFF_FFFFu64) as u32 as i32) == ev) by (bit_vector);
    assert(((((ev as u32 as u64) | ((m as u64) << 32u64) | ((d as u64) << 48u64) | ((k as u64)
        << 56u64)) >> 32u64) & 0xFFFFu64) as u16 == m) by (bit_vector);
    assert(((((ev as u32 as u64) | ((m as u64) << 32u64) | ((d as u64) << 48u64) | ((k as u64)
        << 56u64)) >> 48u64) & 0xFFu64) as u8 == d) by (bit_vector);
    assert((((ev as u32 as u64) | ((m as u64) << 32u64) | ((d as u64) << 48u64) | ((k as u64)
        << 56u64)) >> 56u64) as u8 == k) by (bit_vector);
    assert((((ev as u32 as u64) | ((m as u64) << 32u64) | ((d as u64) << 48u64) | ((k as u64)
        << 56u64)) == 0) == (ev == 0 && m == 0 && d == 0 && k == 0)) by (bit_vector);
}

impl TTSlot {
    pub fn empty() -> (s: TTSlot)
        ensures
            s.position_hash == 0,
            s.data == 0,
    {
        TTSlot { position_hash: 0, data: 0 }
    }

    /// Reading the slot for a position at a ply gives an `i32` score: the slot
    /// holds no entry for the position, or its score moved by the ply fits.
    /// Every ply from 0 on is such a ply.
    pub open spec fn readable_at(self, hash: u64, ply: int) -> bool {
        ||| ply >= 0
        ||| self.data == 0
        ||| self.position_hash ^ self.data != hash
        ||| i32::MIN <= add_mate_spec(unpack_entry_spec(self.data).eval as int, ply) <= i32::MAX
    }

    /// The slot after storing an entry for `position`.
    pub open spec fn stored(
        best_move: ChessMove,
        eval: i32,
        position: u64,
        depth: i32,
        node_kind: NodeKind,
    ) -> TTSlot {
        let data = pack_entry_spec(
            EncodedEntry {
                eval: eval,
                mv_byte: move_bits_spec(best_move),
                depth: depth as u8,
                node_kind: node_kind_code(node_kind),
            },
        );
        TTSlot { position_hash: position ^ data, data: data }
    }

    /// What the slot gives back for a position with hash `hash`, `ply` plies from
    /// the root.
    pub open spec fn probe(self, hash: u64, ply: int) -> Option<TTEntry> {
        if self.data == 0 || self.position_hash ^ self.data != hash {
            None
        } else {
            let e = unpack_entry_spec(self.data);
            Some(
                TTEntry {
                    best_move: Some(unpack_move_spec(e.mv_byte)),
                    eval: add_mate_spec(e.eval as int, ply) as i32,
                    depth: e.depth as i32,
                    node_kind: node_kind_of(e.node_kind),
                },
            )
        }
    }

    fn store(
        &mut self,
        best_move: Option<ChessMove>,
        eval: i32,
        position: u64,
        depth: i32,
        node_kind: NodeKind,
    )
        requires
            best_move matches Some(mv) && mv.from < 64 && mv.to < 64,
        ensures
            *final(self) == TTSlot::stored(best_move.unwrap(), eval, position, depth, node_kind),
    {
        let mv = match best_move {
            Some(m) => m,
            None => {
                assert(false);
                ChessMove { from: 0, to: 0, promotion: None }
            },
        };
        let kind: u8 = match node_kind {
            NodeKind::Exact => 0,
            NodeKind::UpperBound => 1,
            NodeKind::LowerBound => 2,
            NodeKind::Null => 3,
        };
        let data = pack_entry(
            EncodedEntry { eval: eval, mv_byte: pack_move(mv), depth: depth as u8, node_kind: kind },
        );
        self.position_hash = position ^ data;
        self.data = data;
    }

    fn load(&self, hash: u64, ply: i32) -> (r: Option<TTEntry>)
        requires
            self.readable_at(hash, ply as int),
        ensures
            r == self.probe(hash, ply as int),
    {
        let position_hash_data = self.position_hash;
        let data = self.data;
        if data == 0 || position_hash_data ^ data != hash {
            None
        } else {
            let e = unpack_entry(data);
            let kind = if e.node_kind == 0 {
                NodeKind::Exact
            } else if e.node_kind == 1 {
                NodeKind::UpperBound
            } else if e.node_kind == 2 {
                NodeKind::LowerBound
            } else {
                NodeKind::Null
            };
            Some(
                TTEntry {
                    best_move: Some(unpack_move(e.mv_byte)),
                    eval: add_mate_score(e.eval, ply),
                    depth: e.depth as i32,
                    node_kind: kind,
                },
            )
        }
    }
}

pub struct TT {
    pub table: Vec<TTSlot>,
    length: u64,
}

impl TT {
    /// The table is as long as it says, and has at least one slot.
    pub closed spec fn wf(self) -> bool {
        self.table@.len() == self.length && self.length > 0
    }

    /// The slots of the table.
    pub closed spec fn slots(self) -> Seq<TTSlot> {
        self.table@
    }

    /// The slot of a position hash.
    pub closed spec fn slot_index(self, position: u64) -> int {
        (position % (self.table@.len() as u64)) as int
    }

    /// Every slot is empty or holds a score within `TT_SCORE_LIMIT`.
    pub open spec fn scores_bounded(self) -> bool {
        forall|i: int| 0 <= i < self.slots().len() ==> #[trigger] slot_score_bounded(self.slots()[i])
    }

    /// Every position hash has a slot of the table.
    pub proof fn lemma_slot_index_in_range(self, position: u64)
        requires
            self.wf(),
        ensures
            0 <= self.slot_index(position) < self.slots().len(),
    {
    }

    /// A table of empty slots: no position is found in it.
    pub fn new() -> (tt: TT)
        ensures
            tt.wf(),
            tt.scores_bounded(),
            tt.slots().len() == TT_LENGTH,
            forall|i: int| 0 <= i < tt.slots().len() ==> tt.slots()[i] == TTSlot::empty_spec(),
            forall|h: u64, ply: int| #[trigger] tt.slots()[tt.slot_index(h)].probe(h, ply) is None,
    {
        let mut table: Vec<TTSlot> = Vec::new();
        let mut i: u64 = 0;
        while i < TT_LENGTH
            invariant
                i <= TT_LENGTH,
                table@.len() == i,
                forall|j: int| 0 <= j < table@.len() ==> table@[j] == TTSlot::empty_spec(),
            decreases TT_LENGTH - i,
        {
            table.push(TTSlot::empty());
            i = i + 1;
        }
        let tt = TT { table: table, length: TT_LENGTH };
        assert forall|h: u64, ply: int| #[trigger] tt.slots()[tt.slot_index(h)].probe(h, ply) is None by {
            assert(0 <= tt.slot_index(h) < tt.slots().len());
        }
        tt
    }

    /// Stores an entry in the slot of `position`, replacing what was there. The
    /// score is stored relative to the node.
    pub fn insert(
        &mut self,
        best_move: Option<ChessMove>,
        eval: i32,
        position: u64,
        ply: i32,
        depth: i32,
        node_kind: NodeKind,
    )
        requires
            old(self).wf(),
            best_move matches Some(mv) && mv.from < 64 && mv.to < 64,
            i32::MIN <= remove_mate_spec(eval as int, ply as int) <= i32::MAX,
        ensures
            final(self).wf(),
            0 <= old(self).slot_index(position) < old(self).slots().len(),
            forall|h: u64| #[trigger] final(self).slot_index(h) == old(self).slot_index(h),
            old(self).scores_bounded() && -TT_SCORE_LIMIT <= remove_mate_spec(eval as int, ply as int)
                <= TT_SCORE_LIMIT ==> final(self).scores_bounded(),
            final(self).slots() == old(self).slots().update(
                old(self).slot_index(position),
                TTSlot::stored(
                    best_move.unwrap(),
                    remove_mate_spec(eval as int, ply as int) as i32,
                    position,
                    depth,
                    node_kind,
                ),
            ),
    {
        assert(self.table@.len() as u64 == self.length);
        let m = position % self.length;
        assert(m < self.length);
        assert(self.table.len() == self.table@.len());
        let idx = m as usize;
        assert(idx == self.slot_index(position));
        let stored_eval = remove_mate_score(eval, ply);
        let mut slot = self.table[idx];
        slot.store(best_move, stored_eval, position, depth, node_kind);
        proof {
            let e = EncodedEntry {
                eval: stored_eval,
                mv_byte: move_bits_spec(best_move.unwrap()),
                depth: depth as u8,
                node_kind: node_kind_code(node_kind),
            };
            lemma_entry_roundtrip(e);
        }
        let ghost before = self.table@;
        self.table.set(idx, slot);
        proof {
            if old(self).scores_bounded() && -TT_SCORE_LIMIT <= stored_eval <= TT_SCORE_LIMIT {
                assert forall|i: int| 0 <= i < self.slots().len() implies #[trigger] slot_score_bounded(
                    self.slots()[i],
                ) by {
                    if i != idx as int {
                        assert(self.slots()[i] == before[i]);
                        assert(slot_score_bounded(old(self).slots()[i]));
                    }
                }
            }
        }
    }

    /// Probes the slot of the board's hash.
    pub fn find(&self, board: &cozy_chess::Board, ply: i32) -> (r: Option<TTEntry>)
        requires
            self.wf(),
            self.slots()[self.slot_index(board_hash(*board))].readable_at(board_hash(*board), ply as int),
        ensures
            0 <= self.slot_index(board_hash(*board)) < self.slots().len(),
            r == self.slots()[self.slot_index(board_hash(*board))].probe(board_hash(*board), ply as int),
            ply >= 0 && self.scores_bounded() && r is Some ==> -(TT_SCORE_LIMIT + ply) <= r.unwrap().eval
                <= TT_SCORE_LIMIT + ply,
    {
        let h = hash(board);
        assert(self.table@.len() as u64 == self.length);
        let m = h % self.length;
        assert(m < self.length);
        assert(self.table.len() == self.table@.len());
        let idx = m as usize;
        assert(idx == self.slot_index(h));
        proof {
            if self.scores_bounded() {
                assert(slot_score_bounded(self.slots()[idx as int]));
            }
        }
        self.table[idx].load(h, ply)
    }
}

impl TTSlot {
    pub open spec fn empty_spec() -> TTSlot {
        TTSlot { position_hash: 0, data: 0 }
    }
}

/// What a probe gives back for the position just stored: the move, the score
/// written at one ply read back at another, the depth (as a byte) and the
/// kind, unless the entry packs to zero, which reads as an empty slot; any
/// other position finds nothing there.
pub proof fn lemma_store_then_probe(
    mv: ChessMove,
    eval: i32,
    position: u64,
    write_ply: int,
    read_ply: int,
    depth: i32,
    kind: NodeKind,
)
    requires
        mv.from < 64,
        mv.to < 64,
        0 <= depth < 256,
        i32::MIN <= remove_mate_spec(eval as int, write_ply) <= i32::MAX,
        !(remove_mate_spec(eval as int, write_ply) == 0 && move_bits_spec(mv) == 0 && depth == 0
            && kind == NodeKind::Exact),
    ensures
        TTSlot::stored(mv, remove_mate_spec(eval as int, write_ply) as i32, position, depth, kind).probe(
            position,
            read_ply,
        ) == Some(
            TTEntry {
                best_move: Some(mv),
                eval: add_mate_spec(remove_mate_spec(eval as int, write_ply), read_ply) as i32,
                depth: depth,
                node_kind: kind,
            },
        ),
        forall|h: u64|
            h != position ==> (#[trigger] TTSlot::stored(
                mv,
                remove_mate_spec(eval as int, write_ply) as i32,
                position,
                depth,
                kind,
            ).probe(h, read_ply)) is None,
{
    let stored_eval = remove_mate_spec(eval as int, write_ply) as i32;
    let e = EncodedEntry {
        eval: stored_eval,
        mv_byte: move_bits_spec(mv),
        depth: depth as u8,
        node_kind: node_kind_code(kind),
    };
    lemma_entry_roundtrip(e);
    lemma_move_roundtrip(mv);
    let data = pack_entry_spec(e);
    assert((position ^ data) ^ data == position) by (bit_vector);
}

/// A probe after an insert finds, in the slot of the inserted position, what
/// was inserted (read back at any ply; see `lemma_store_then_probe` for the one
/// entry that reads as empty), finds nothing there for any other position,
/// and every other slot keeps its entry.
pub proof fn lemma_insert_then_find(
    before: TT,
    after: TT,
    mv: ChessMove,
    eval: i32,
    position: u64,
    write_ply: int,
    read_ply: int,
    depth: i32,
    kind: NodeKind,
)
    requires
        before.wf(),
        after.wf(),
        forall|h: u64| #[trigger] after.slot_index(h) == before.slot_index(h),
        after.slots() == before.slots().update(
            before.slot_index(position),
            TTSlot::stored(mv, remove_mate_spec(eval as int, write_ply) as i32, position, depth, kind),
        ),
        mv.from < 64,
        mv.to < 64,
        0 <= depth < 256,
        i32::MIN <= remove_mate_spec(eval as int, write_ply) <= i32::MAX,
        !(remove_mate_spec(eval as int, write_ply) == 0 && move_bits_spec(mv) == 0 && depth == 0
            && kind == NodeKind::Exact),
    ensures
        after.slots()[after.slot_index(position)].probe(position, read_ply) == Some(
            TTEntry {
                best_move: Some(mv),
                eval: add_mate_spec(remove_mate_spec(eval as int, write_ply), read_ply) as i32,
                depth: depth,
                node_kind: kind,
            },
        ),
        forall|h: u64|
            h != position && after.slot_index(h) == after.slot_index(position) ==> (
            #[trigger] after.slots()[after.slot_index(h)].probe(h, read_ply)) is None,
        forall|h: u64|
            after.slot_index(h) != after.slot_index(position) ==> #[trigger] after.slots()[after.slot_index(
                h,
            )] == before.slots()[before.slot_index(h)],
{
    before.lemma_slot_index_in_range(position);
    lemma_store_then_probe(mv, eval, position, write_ply, read_ply, depth, kind);
    assert forall|h: u64|
        after.slot_index(h) != after.slot_index(position) implies #[trigger] after.slots()[after.slot_index(
            h,
        )] == before.slots()[before.slot_index(h)] by {
        before.lemma_slot_index_in_range(h);
    }
}

} // verus!
