//! A board together with the pawn, non-pawn and material hashes that index the
//! correction histories, kept up to date move by move.

use vstd::prelude::*;
use crate::board::{
    board_after, board_passed, fen_board,
    board_checkers, board_clone, board_colors, board_en_passant, board_from_fen,
    board_legal_moves, board_pieces, board_side, board_startpos, board_valid, colored,
    startpos_colors, startpos_pieces,
    colored_pieces, en_passant, fen_accepted, lemma_piece_on_has, material_count, null_move,
    piece_on, piece_on_spec, play_unchecked, side_to_move, parse_move, uci_move_parsed, is_legal, colors,
};
use crate::chess::{
    ChessMove,
    Color, Piece, bb_has, bb_len, count_upto, has, lemma_has_and, make_square,
    new_square, popcount, rank_relative_to, relative_rank, square_file, square_rank,
};
use crate::movegen::hash_keys::{BOARD_BY_PIECE_KEYS, COUNT_BY_SIDE_KEYS};
use crate::movegen::incremental::{hashes_follow, lemma_play_keeps_hashes};
use crate::movegen::movegen::SortedMove;
use crate::movegen::movesorter::MoveType;
use crate::uci::castle_parse::{_regular_to_960_, castles_from, parse_square_spec, regular_to_960_spec};

verus! {

/// `h` xored with the key of piece kind `p` on every square of `bb` below `n`.
pub open spec fn xor_keys(h: u64, bb: u64, p: int, n: int) -> u64
    decreases n,
{
    if n <= 0 {
        h
    } else if has(bb, n - 1) {
        xor_keys(h, bb, p, n - 1) ^ BOARD_BY_PIECE_KEYS[p][n - 1]
    } else {
        xor_keys(h, bb, p, n - 1)
    }
}

/// The pawn hash: the keys of all pawns, White's then Black's.
pub open spec fn pawn_hash_spec(b: cozy_chess::Board) -> u64 {
    xor_keys(
        xor_keys(0, colored(b, Color::White, Piece::Pawn), 0, 64),
        colored(b, Color::Black, Piece::Pawn),
        0,
        64,
    )
}

/// The keys of a color's pieces of kinds 1 through `k` (knight to king).
pub open spec fn non_pawn_upto(b: cozy_chess::Board, c: Color, k: int) -> u64
    decreases k,
{
    if k <= 0 {
        0
    } else {
        xor_keys(non_pawn_upto(b, c, k - 1), colored(b, c, Piece::of_int(k)), k, 64)
    }
}

/// The non-pawn hashes of White and Black.
pub open spec fn non_pawn_hash_spec(b: cozy_chess::Board) -> Seq<u64> {
    seq![non_pawn_upto(b, Color::White, 5), non_pawn_upto(b, Color::Black, 5)]
}

/// `h` xored with the count keys of a color's pieces of kinds below `k`.
pub open spec fn material_upto(h: u64, b: cozy_chess::Board, c: Color, k: int) -> u64
    decreases k,
{
    if k <= 0 {
        h
    } else {
        material_upto(h, b, c, k - 1) ^ COUNT_BY_SIDE_KEYS[c.to_int()][k - 1][popcount(
            colored(b, c, Piece::of_int(k - 1)),
        )]
    }
}

/// The material hash: the count keys of pawns to queens, White's then Black's.
pub open spec fn material_hash_spec(b: cozy_chess::Board) -> u64 {
    material_upto(material_upto(0, b, Color::White, 5), b, Color::Black, 5)
}

proof fn lemma_material_count_each(b: cozy_chess::Board, c: Color, k: int)
    requires
        0 <= k < 5,
        material_count(b, c) <= 15,
    ensures
        0 <= popcount(colored(b, c, Piece::of_int(k))) <= 15,
{
    crate::chess::lemma_count_bounds(colored(b, c, Piece::Pawn), 64);
    crate::chess::lemma_count_bounds(colored(b, c, Piece::Knight), 64);
    crate::chess::lemma_count_bounds(colored(b, c, Piece::Bishop), 64);
    crate::chess::lemma_count_bounds(colored(b, c, Piece::Rook), 64);
    crate::chess::lemma_count_bounds(colored(b, c, Piece::Queen), 64);
}

/// A square of a bitboard makes it count at least one.
pub(crate) proof fn lemma_count_has(bb: u64, s: int, n: int)
    requires
        0 <= s < n <= 64,
        has(bb, s),
    ensures
        count_upto(bb, n) >= 1,
    decreases n,
{
    crate::chess::lemma_count_bounds(bb, n - 1);
    if s < n - 1 {
        lemma_count_has(bb, s, n - 1);
    }
}

fn xor_piece_keys(h: u64, bb: u64, piece: usize) -> (r: u64)
    requires
        piece < 6,
    ensures
        r == xor_keys(h, bb, piece as int, 64),
{
    let mut hash = h;
    let mut s: u8 = 0;
    while s < 64
        invariant
            s <= 64,
            piece < 6,
            hash == xor_keys(h, bb, piece as int, s as int),
        decreases 64 - s,
    {
        if bb_has(bb, s) {
            hash = hash ^ BOARD_BY_PIECE_KEYS[piece][s as usize];
        }
        s = s + 1;
    }
    hash
}

fn init_pawn_hash(board: &cozy_chess::Board) -> (r: u64)
    ensures
        r == pawn_hash_spec(*board),
{
    let hash = xor_piece_keys(0, colored_pieces(board, Color::White, Piece::Pawn), 0);
    xor_piece_keys(hash, colored_pieces(board, Color::Black, Piece::Pawn), 0)
}

fn init_non_pawn_hash(board: &cozy_chess::Board) -> (r: [u64; 2])
    ensures
        r@ == non_pawn_hash_spec(*board),
{
    let mut hash: [u64; 2] = [0, 0];
    let mut ci: usize = 0;
    while ci < 2
        invariant
            ci <= 2,
            forall|j: int| 0 <= j < ci ==> hash@[j] == non_pawn_upto(*board, Color::of_int(j), 5),
            hash@.len() == 2,
        decreases 2 - ci,
    {
        let color = Color::from_index(ci);
        let mut h: u64 = 0;
        let mut k: usize = 1;
        while k < 6
            invariant
                1 <= k <= 6,
                color.to_int() == ci,
                h == non_pawn_upto(*board, color, k - 1),
            decreases 6 - k,
        {
            let piece = Piece::from_index(k);
            h = xor_piece_keys(h, colored_pieces(board, color, piece), k);
            k = k + 1;
        }
        hash[ci] = h;
        ci = ci + 1;
    }
    assert(hash@ =~= non_pawn_hash_spec(*board));
    hash
}

fn init_material_hash(board: &cozy_chess::Board) -> (r: u64)
    requires
        board_valid(*board),
    ensures
        r == material_hash_spec(*board),
{
    let mut hash: u64 = 0;
    let mut ci: usize = 0;
    while ci < 2
        invariant
            ci <= 2,
            board_valid(*board),
            ci == 0 ==> hash == 0,
            ci == 1 ==> hash == material_upto(0, *board, Color::White, 5),
            ci == 2 ==> hash == material_hash_spec(*board),
        decreases 2 - ci,
    {
        let color = Color::from_index(ci);
        let ghost h0 = hash;
        let mut k: usize = 0;
        while k < 5
            invariant
                k <= 5,
                color.to_int() == ci,
                ci < 2,
                board_valid(*board),
                hash == material_upto(h0, *board, color, k as int),
            decreases 5 - k,
        {
            let piece = Piece::from_index(k);
            let count = bb_len(colored_pieces(board, color, piece));
            proof {
                lemma_material_count_each(*board, color, k as int);
            }
            hash = hash ^ COUNT_BY_SIDE_KEYS[ci][k][count as usize];
            k = k + 1;
        }
        ci = ci + 1;
    }
    hash
}

/// A piece of the enemy on a square: the enemy has at least one piece of that
/// kind.
pub proof fn lemma_capture_count(b: cozy_chess::Board, sq: int)
    requires
        0 <= sq < 64,
        has(board_colors(b)[board_side(b).opp().to_int()], sq),
        piece_on_spec(b, sq) is Some,
    ensures
        popcount(colored(b, board_side(b).opp(), piece_on_spec(b, sq).unwrap())) > 0,
{
    lemma_piece_on_has(board_pieces(b), sq, 0);
    let cp = piece_on_spec(b, sq).unwrap();
    lemma_has_and(board_colors(b)[board_side(b).opp().to_int()], board_pieces(b)[cp.to_int()], sq);
    lemma_count_has(colored(b, board_side(b).opp(), cp), sq, 64);
}

/// The hashes after the capture part of a move: a loud move onto an enemy
/// piece takes that piece's count down by one and, for a piece, its key off.
pub open spec fn capture_hashes(w: BoardWrapper, sm: SortedMove) -> (u64, Seq<u64>) {
    let b = w.board;
    let e = board_side(b).opp();
    let ei = e.to_int();
    let to = sm.mv.to as int;
    let cap = piece_on_spec(b, to);
    if sm.movetype == MoveType::Loud && cap is Some {
        let cp = cap.unwrap();
        let ci = cp.to_int();
        let cnt = popcount(colored(b, e, cp));
        let m = w.material_hash ^ COUNT_BY_SIDE_KEYS[ei][ci][cnt] ^ COUNT_BY_SIDE_KEYS[ei][ci][cnt
            - 1];
        let np = if cp != Piece::Pawn {
            w.non_pawn_hash@.update(ei, w.non_pawn_hash@[ei] ^ BOARD_BY_PIECE_KEYS[ci][to])
        } else {
            w.non_pawn_hash@
        };
        (m, np)
    } else {
        (w.material_hash, w.non_pawn_hash@)
    }
}

/// The hashes (pawn, non-pawn, material) after a pawn move: the pawn's key
/// moves (or, on promotion, the counts and the new piece's key change), and a
/// pawn move onto the en passant file takes off the pawn beside it.
pub open spec fn pawn_move_hashes(w: BoardWrapper, sm: SortedMove, m1: u64, np1: Seq<u64>) -> (
    u64,
    Seq<u64>,
    u64,
) {
    let b = w.board;
    let us = board_side(b);
    let e = us.opp();
    let ui = us.to_int();
    let ei = e.to_int();
    let from = sm.mv.from as int;
    let to = sm.mv.to as int;
    let p1 = w.pawn_hash ^ BOARD_BY_PIECE_KEYS[0][from];
    let (p2, m2, np2) = match sm.mv.promotion {
        None => (p1 ^ BOARD_BY_PIECE_KEYS[0][to], m1, np1),
        Some(pr) => {
            let pi = pr.to_int();
            let pc = popcount(colored(b, us, Piece::Pawn));
            let prc = popcount(colored(b, us, pr));
            (
                p1,
                m1 ^ COUNT_BY_SIDE_KEYS[ui][0][pc] ^ COUNT_BY_SIDE_KEYS[ui][0][pc - 1]
                    ^ COUNT_BY_SIDE_KEYS[ui][pi][prc] ^ COUNT_BY_SIDE_KEYS[ui][pi][prc + 1],
                np1.update(ui, np1[ui] ^ BOARD_BY_PIECE_KEYS[pi][to]),
            )
        },
    };
    match board_en_passant(b) {
        Some(f) => if square_file(to) == f {
            let csq = make_square(f as int, relative_rank(3, e));
            let cp = piece_on_spec(b, csq).unwrap();
            let ci = cp.to_int();
            let cc = popcount(colored(b, e, cp));
            let p3 = if cp == Piece::Pawn {
                p2 ^ BOARD_BY_PIECE_KEYS[0][csq]
            } else {
                p2
            };
            let m3 = m2 ^ COUNT_BY_SIDE_KEYS[ei][ci][cc] ^ COUNT_BY_SIDE_KEYS[ei][ci][cc - 1];
            let np3 = if cp != Piece::Pawn {
                np2.update(ei, np2[ei] ^ BOARD_BY_PIECE_KEYS[ci][csq])
            } else {
                np2
            };
            (p3, np3, m3)
        } else {
            (p2, np2, m2)
        },
        None => (p2, np2, m2),
    }
}

/// The non-pawn hash after a piece move: the piece's key moves, and a king
/// moving two files moves the rook's key from the corner beside it.
pub open spec fn piece_move_non_pawn(w: BoardWrapper, sm: SortedMove, pk: Piece, np1: Seq<u64>) -> Seq<
    u64,
> {
    let us = board_side(w.board);
    let ui = us.to_int();
    let from = sm.mv.from as int;
    let to = sm.mv.to as int;
    let ki = pk.to_int();
    let np2 = np1.update(ui, np1[ui] ^ BOARD_BY_PIECE_KEYS[ki][from] ^ BOARD_BY_PIECE_KEYS[ki][to]);
    let d = square_file(from) - square_file(to);
    if pk == Piece::King && (d == 2 || d == -2) {
        let rank = square_rank(from);
        let (rf, rt) = if square_file(to) > square_file(from) {
            (7int, 5int)
        } else {
            (0int, 3int)
        };
        np2.update(
            ui,
            np2[ui] ^ BOARD_BY_PIECE_KEYS[3][make_square(rf, rank)] ^ BOARD_BY_PIECE_KEYS[3][make_square(
                rt,
                rank,
            )],
        )
    } else {
        np2
    }
}

/// The hashes (pawn, non-pawn, material) after playing a move.
pub open spec fn play_hashes(w: BoardWrapper, sm: SortedMove) -> (u64, Seq<u64>, u64) {
    let (m1, np1) = capture_hashes(w, sm);
    match piece_on_spec(w.board, sm.mv.from as int) {
        Some(pk) => if pk == Piece::Pawn {
            pawn_move_hashes(w, sm, m1, np1)
        } else {
            (w.pawn_hash, piece_move_non_pawn(w, sm, pk, np1), m1)
        },
        None => (w.pawn_hash, np1, m1),
    }
}

/// Whether a UCI move text can be turned into `cozy_chess`'s notation: four
/// characters or more, starting with a square name, and a king's castling
/// move only from a square that holds a piece.
pub open spec fn text_readable(t: Seq<char>, b: cozy_chess::Board) -> bool {
    &&& t.len() >= 4
    &&& parse_square_spec(t.subrange(0, 2)) is Some
    &&& castles_from(t, '1') ==> piece_on_spec(b, 4) is Some
    &&& castles_from(t, '8') ==> piece_on_spec(b, 60) is Some
}

/// The move a UCI move text names on a board, as `cozy_chess` reads it.
pub open spec fn text_move(t: Seq<char>, b: cozy_chess::Board) -> Option<ChessMove> {
    if text_readable(t, b) {
        uci_move_parsed(regular_to_960_spec(t, b))
    } else {
        None
    }
}

/// A move as played from its text: loud exactly when an enemy piece stands on
/// its target.
pub open spec fn text_sorted_move(b: cozy_chess::Board, m: ChessMove) -> SortedMove {
    SortedMove::fresh(
        m,
        0,
        if has(board_colors(b)[board_side(b).opp().to_int()], m.to as int) {
            MoveType::Loud
        } else {
            MoveType::Quiet
        },
    )
}

pub struct BoardWrapper {
    pub board: cozy_chess::Board,
    pub pawn_hash: u64,
    pub non_pawn_hash: [u64; 2],
    pub material_hash: u64,
}

impl BoardWrapper {
    /// The hashes are those of the board.
    pub open spec fn hashes_match(self) -> bool {
        &&& self.pawn_hash == pawn_hash_spec(self.board)
        &&& self.non_pawn_hash@ == non_pawn_hash_spec(self.board)
        &&& self.material_hash == material_hash_spec(self.board)
    }

    /// The start position, with its hashes.
    pub fn new() -> (w: BoardWrapper)
        ensures
            w.hashes_match(),
            board_valid(w.board),
            board_side(w.board) == Color::White,
            board_pieces(w.board) == startpos_pieces(),
            board_colors(w.board) == startpos_colors(),
            board_en_passant(w.board) == None::<u8>,
            board_checkers(w.board) == 0,
            board_legal_moves(w.board).len() == 20,
            forall|m: ChessMove| #[trigger] board_legal_moves(w.board).contains(m)
                <==> crate::board::startpos_moves().contains(m),
    {
        let new_board = board_startpos();
        let pawn_hash = init_pawn_hash(&new_board);
        let non_pawn_hash = init_non_pawn_hash(&new_board);
        let material_hash = init_material_hash(&new_board);
        BoardWrapper {
            board: new_board,
            pawn_hash: pawn_hash,
            non_pawn_hash: non_pawn_hash,
            material_hash: material_hash,
        }
    }

    /// Another board with this wrapper's hashes.
    fn new_set(&self, board: cozy_chess::Board) -> (w: BoardWrapper)
        ensures
            w.board == board,
            w.pawn_hash == self.pawn_hash,
            w.non_pawn_hash == self.non_pawn_hash,
            w.material_hash == self.material_hash,
    {
        BoardWrapper {
            board: board,
            pawn_hash: self.pawn_hash,
            non_pawn_hash: self.non_pawn_hash,
            material_hash: self.material_hash,
        }
    }

    pub fn clone(&self) -> (w: BoardWrapper)
        ensures
            w == *self,
    {
        BoardWrapper {
            board: board_clone(&self.board),
            pawn_hash: self.pawn_hash,
            non_pawn_hash: self.non_pawn_hash,
            material_hash: self.material_hash,
        }
    }

    /// Sets up the position of a FEN (surrounding whitespace ignored) and its
    /// hashes. The FEN is to be one that `cozy_chess` accepts: on any other,
    /// parsing fails and the position cannot be set up.
    pub fn update_fen(&mut self, fen: &str)
        requires
            fen_accepted(crate::text::trimmed(fen@)),
        ensures
            final(self).board == fen_board(crate::text::trimmed(fen@)),
            final(self).hashes_match(),
            board_valid(final(self).board),
    {
        let trimmed = crate::text::trim(fen);
        match board_from_fen(trimmed) {
            Some(board) => {
                self.pawn_hash = init_pawn_hash(&board);
                self.non_pawn_hash = init_non_pawn_hash(&board);
                self.material_hash = init_material_hash(&board);
                self.board = board;
            },
            None => {
                assert(false);
            },
        }
    }

    /// Sets up the position of a FEN as `update_fen` does where `cozy_chess`
    /// accepts it; otherwise nothing changes and `false` comes back.
    pub fn try_update_fen(&mut self, fen: &str) -> (applied: bool)
        ensures
            applied == fen_accepted(crate::text::trimmed(fen@)),
            applied ==> final(self).board == fen_board(crate::text::trimmed(fen@)),
            applied ==> final(self).hashes_match() && board_valid(final(self).board),
            !applied ==> *final(self) == *old(self),
    {
        let trimmed = crate::text::trim(fen);
        match board_from_fen(trimmed) {
            Some(_) => {
                self.update_fen(fen);
                true
            },
            None => false,
        }
    }

    /// Plays a move given in UCI notation, as `position ... moves` lists it:
    /// the text (castling written as the king's two-square move) is turned
    /// into `cozy_chess`'s notation and read, and a legal move is played, loud
    /// exactly when an enemy piece stands on its target. Text that cannot be
    /// read, or that names no legal move, changes nothing and gives `false`.
    pub fn play_move_text(&mut self, text: &str) -> (ok: bool)
        requires
            board_valid(old(self).board),
        ensures
            ok == (text_move(text@, old(self).board) matches Some(m) && board_legal_moves(
                old(self).board,
            ).contains(m)),
            ok ==> final(self).board == board_after(old(self).board, text_move(text@, old(self).board).unwrap())
                && final(self).pawn_hash == play_hashes(
                *old(self),
                text_sorted_move(old(self).board, text_move(text@, old(self).board).unwrap()),
            ).0 && final(self).non_pawn_hash@ == play_hashes(
                *old(self),
                text_sorted_move(old(self).board, text_move(text@, old(self).board).unwrap()),
            ).1 && final(self).material_hash == play_hashes(
                *old(self),
                text_sorted_move(old(self).board, text_move(text@, old(self).board).unwrap()),
            ).2,
            ok && old(self).hashes_match() && hashes_follow(
                old(self).board,
                text_sorted_move(old(self).board, text_move(text@, old(self).board).unwrap()),
            ) ==> final(self).hashes_match(),
            !ok ==> *final(self) == *old(self),
            board_valid(final(self).board),
    {
        let n = text.unicode_len();
        if n < 4 {
            return false;
        }
        let c0 = text.get_char(0);
        let c1 = text.get_char(1);
        if !('a' <= c0 && c0 <= 'h' && '1' <= c1 && c1 <= '8') {
            return false;
        }
        let c2 = text.get_char(2);
        let c3 = text.get_char(3);
        proof {
            assert(text@.subrange(0, 2) =~= seq![c0, c1]);
        }
        let castles_white = c0 == 'e' && c1 == '1' && (c2 == 'c' || c2 == 'g') && c3 == '1';
        let castles_black = c0 == 'e' && c1 == '8' && (c2 == 'c' || c2 == 'g') && c3 == '8';
        if castles_white && piece_on(&self.board, 4).is_none() {
            return false;
        }
        if castles_black && piece_on(&self.board, 60).is_none() {
            return false;
        }
        let converted = _regular_to_960_(String::from_str(text), &self.board);
        let mv = match parse_move(converted.as_str()) {
            Some(m) => m,
            None => {
                return false;
            },
        };
        if !is_legal(&self.board, mv) {
            return false;
        }
        let their = colors(&self.board, side_to_move(&self.board).other());
        let movetype = if bb_has(their, mv.to) {
            MoveType::Loud
        } else {
            MoveType::Quiet
        };
        let mut sm = SortedMove::new(mv, 0, movetype);
        proof {
            let b = self.board;
            if movetype == MoveType::Loud && piece_on_spec(b, mv.to as int) is Some {
                lemma_capture_count(b, mv.to as int);
            }
        }
        self.play_unchecked(&mut sm);
        true
    }

    /// The same position with the other side to move, keeping the hashes.
    pub fn null_move(&self) -> (w: BoardWrapper)
        requires
            board_valid(self.board),
            board_checkers(self.board) == 0,
        ensures
            w.board == board_passed(self.board),
            board_pieces(w.board) == board_pieces(self.board),
            board_colors(w.board) == board_colors(self.board),
            board_side(w.board) == board_side(self.board).opp(),
            board_en_passant(w.board) == None::<u8>,
            board_valid(w.board),
            w.pawn_hash == self.pawn_hash,
            w.non_pawn_hash == self.non_pawn_hash,
            w.material_hash == self.material_hash,
    {
        let null_board = match null_move(&self.board) {
            Some(b) => b,
            None => {
                assert(false);
                board_clone(&self.board)
            },
        };
        self.new_set(null_board)
    }

    /// Plays a legal move and updates the hashes as `play_hashes` says.
    pub fn play_unchecked(&mut self, sm: &mut SortedMove)
        requires
            board_valid(old(self).board),
            board_legal_moves(old(self).board).contains(old(sm).mv),
            old(sm).movetype == MoveType::Loud && piece_on_spec(old(self).board, old(sm).mv.to as int) is Some
                ==> popcount(colored(old(self).board, board_side(old(self).board).opp(), piece_on_spec(old(self).board, old(sm).mv.to as int).unwrap())) > 0,
        ensures
            *final(sm) == *old(sm),
            final(self).pawn_hash == play_hashes(*old(self), *old(sm)).0,
            final(self).non_pawn_hash@ == play_hashes(*old(self), *old(sm)).1,
            final(self).material_hash == play_hashes(*old(self), *old(sm)).2,
            final(self).board == board_after(old(self).board, old(sm).mv),
            board_side(final(self).board) == board_side(old(self).board).opp(),
            board_valid(final(self).board),
            old(self).hashes_match() && hashes_follow(old(self).board, *old(sm))
                ==> final(self).hashes_match(),
    {
        let ghost w0 = *self;
        let ghost b = self.board;
        let mv = sm.mv;
        let us = side_to_move(&self.board);
        let enemy = us.other();
        let ui = us.index();
        let ei = enemy.index();
        proof {
            let i = choose|i: int| 0 <= i < board_legal_moves(b).len() && board_legal_moves(b)[i] == mv;
            assert(board_legal_moves(b)[i] == mv);
        }

        if sm.movetype == MoveType::Loud {
            let captured_piece = piece_on(&self.board, mv.to);
            match captured_piece {
                Some(cp) => {
                    let count_bb = colored_pieces(&self.board, enemy, cp);
                    proof {
                        lemma_piece_on_has(board_pieces(b), mv.to as int, 0);
                        lemma_has_and(board_colors(b)[ei as int], board_pieces(b)[cp.to_int()], mv.to as int);
                        if cp.to_int() < 5 {
                            lemma_material_count_each(b, enemy, cp.to_int());
                        }
                    }
                    let count = bb_len(count_bb) as usize;
                    let ci = cp.index();
                    self.material_hash = self.material_hash ^ COUNT_BY_SIDE_KEYS[ei][ci][count];
                    self.material_hash = self.material_hash ^ COUNT_BY_SIDE_KEYS[ei][ci][count - 1];
                    if cp != Piece::Pawn {
                        self.non_pawn_hash[ei] = self.non_pawn_hash[ei] ^ BOARD_BY_PIECE_KEYS[ci][mv.to as usize];
                    }
                },
                None => {},
            }
        }
        assert(self.material_hash == capture_hashes(w0, *sm).0);
        assert(self.non_pawn_hash@ =~= capture_hashes(w0, *sm).1);

        let piece_from = piece_on(&self.board, mv.from);
        if piece_from == Some(Piece::Pawn) {
            proof {
                lemma_piece_on_has(board_pieces(b), mv.from as int, 0);
                lemma_has_and(board_colors(b)[ui as int], board_pieces(b)[0], mv.from as int);
                lemma_count_has(colored(b, us, Piece::Pawn), mv.from as int, 64);
            }
            let ghost m1 = self.material_hash;
            let ghost np1 = self.non_pawn_hash@;
            self.pawn_hash = self.pawn_hash ^ BOARD_BY_PIECE_KEYS[0][mv.from as usize];

            match mv.promotion {
                None => {
                    self.pawn_hash = self.pawn_hash ^ BOARD_BY_PIECE_KEYS[0][mv.to as usize];
                },
                Some(promotion_piece) => {
                    let pawn_piece_count = bb_len(colored_pieces(&self.board, us, Piece::Pawn)) as usize;
                    let promotion_piece_count = bb_len(colored_pieces(&self.board, us, promotion_piece)) as usize;
                    let pi = promotion_piece.index();
                    proof {
                        crate::chess::lemma_count_bounds(colored(b, us, Piece::Pawn), 64);
                        crate::chess::lemma_count_bounds(colored(b, us, Piece::Knight), 64);
                        crate::chess::lemma_count_bounds(colored(b, us, Piece::Bishop), 64);
                        crate::chess::lemma_count_bounds(colored(b, us, Piece::Rook), 64);
                        crate::chess::lemma_count_bounds(colored(b, us, Piece::Queen), 64);
                    }
                    self.material_hash = self.material_hash ^ COUNT_BY_SIDE_KEYS[ui][0][pawn_piece_count];
                    self.material_hash = self.material_hash ^ COUNT_BY_SIDE_KEYS[ui][0][pawn_piece_count - 1];
                    self.material_hash = self.material_hash ^ COUNT_BY_SIDE_KEYS[ui][pi][promotion_piece_count];
                    self.material_hash = self.material_hash ^ COUNT_BY_SIDE_KEYS[ui][pi][promotion_piece_count + 1];
                    self.non_pawn_hash[ui] = self.non_pawn_hash[ui] ^ BOARD_BY_PIECE_KEYS[pi][mv.to as usize];
                },
            }

            match en_passant(&self.board) {
                Some(ep_file) => {
                    if mv.to % 8 == ep_file {
                        let captured_rank = rank_relative_to(3, enemy);
                        let captured_sq = new_square(ep_file, captured_rank);
                        proof {
                            lemma_has_and(board_colors(b)[ei as int], board_pieces(b)[0], captured_sq as int);
                            lemma_count_has(colored(b, enemy, Piece::Pawn), captured_sq as int, 64);
                            lemma_material_count_each(b, enemy, 0);
                        }
                        let captured_piece = match piece_on(&self.board, captured_sq) {
                            Some(p) => p,
                            None => {
                                assert(false);
                                Piece::Pawn
                            },
                        };
                        assert(captured_piece == Piece::Pawn);
                        let captured_piece_count = bb_len(colored_pieces(&self.board, enemy, captured_piece)) as usize;
                        let ci = captured_piece.index();

                        if captured_piece == Piece::Pawn {
                            self.pawn_hash = self.pawn_hash ^ BOARD_BY_PIECE_KEYS[0][captured_sq as usize];
                        }
                        self.material_hash = self.material_hash ^ COUNT_BY_SIDE_KEYS[ei][ci][captured_piece_count];
                        self.material_hash = self.material_hash ^ COUNT_BY_SIDE_KEYS[ei][ci][captured_piece_count - 1];
                        if captured_piece != Piece::Pawn {
                            self.non_pawn_hash[ei] = self.non_pawn_hash[ei] ^ BOARD_BY_PIECE_KEYS[ci][captured_sq as usize];
                        }
                    }
                },
                None => {},
            }
            assert(self.non_pawn_hash@ =~= pawn_move_hashes(w0, *sm, m1, np1).1);
        } else {
            match piece_from {
                Some(pf) => {
                    let ki = pf.index();
                    let ghost np1 = self.non_pawn_hash@;
                    self.non_pawn_hash[ui] = self.non_pawn_hash[ui] ^ BOARD_BY_PIECE_KEYS[ki][mv.from as usize];
                    self.non_pawn_hash[ui] = self.non_pawn_hash[ui] ^ BOARD_BY_PIECE_KEYS[ki][mv.to as usize];
                    if pf == Piece::King {
                        let from_file = (mv.from % 8) as i8;
                        let to_file = (mv.to % 8) as i8;
                        let d = from_file - to_file;
                        if d == 2 || d == -2 {
                            let rank = mv.from / 8;
                            let (rook_from, rook_to) = if to_file > from_file {
                                (new_square(7, rank), new_square(5, rank))
                            } else {
                                (new_square(0, rank), new_square(3, rank))
                            };
                            self.non_pawn_hash[ui] = self.non_pawn_hash[ui] ^ BOARD_BY_PIECE_KEYS[3][rook_from as usize];
                            self.non_pawn_hash[ui] = self.non_pawn_hash[ui] ^ BOARD_BY_PIECE_KEYS[3][rook_to as usize];
                        }
                    }
                    assert(self.non_pawn_hash@ =~= piece_move_non_pawn(w0, *sm, pf, np1));
                },
                None => {},
            }
        }

        play_unchecked(&mut self.board, mv);
        proof {
            if w0.hashes_match() && hashes_follow(w0.board, *sm) {
                lemma_play_keeps_hashes(w0, *sm, self.board);
            }
        }
    }
}

} // verus!
