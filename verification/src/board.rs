//! The chessboard and the attack tables of `cozy_chess`, behind trusted items.
//!
//! A `cozy_chess::Board` is opaque to Verus. What the engine reads of it is
//! named here: the six piece bitboards, the two color bitboards, the side to
//! move, the en passant file, the Zobrist hash, the checkers, the legal moves
//! in generation order and the game status. Every accessor below states its
//! result over those names, as `cozy_chess`'s source computes it.

use vstd::prelude::*;
use crate::chess::{Color, GameStatus, Piece, has, make_square, popcount, lowest_square, relative_rank, square_bb, square_file, square_rank};

verus! {

#[verifier::external_type_specification]
#[verifier::external_body]
pub struct ExBoard(cozy_chess::Board);

#[verifier::external_type_specification]
#[verifier::external_body]
pub struct ExMove(cozy_chess::Move);

/// The piece bitboards of a board, indexed by `Piece::to_int`.
pub uninterp spec fn board_pieces(b: cozy_chess::Board) -> Seq<u64>;

/// The color bitboards of a board, indexed by `Color::to_int`.
pub uninterp spec fn board_colors(b: cozy_chess::Board) -> Seq<u64>;

/// The side to move.
pub uninterp spec fn board_side(b: cozy_chess::Board) -> Color;

/// The file of the en passant square, if any.
pub uninterp spec fn board_en_passant(b: cozy_chess::Board) -> Option<u8>;

/// The Zobrist hash that the board keeps.
pub uninterp spec fn board_hash(b: cozy_chess::Board) -> u64;

/// The pieces that give check to the side to move.
pub uninterp spec fn board_checkers(b: cozy_chess::Board) -> u64;

/// The legal moves, in the order in which `generate_moves` hands them out.
pub uninterp spec fn board_legal_moves(b: cozy_chess::Board) -> Seq<crate::chess::ChessMove>;

/// Whether the game is won, drawn or still going on.
pub uninterp spec fn board_status(b: cozy_chess::Board) -> GameStatus;

/// Whether `Board::from_fen` (non-Shredder) accepts the text.
pub uninterp spec fn fen_accepted(fen: Seq<char>) -> bool;

/// The rook moves from a square with the given blockers (`get_rook_moves`).
pub uninterp spec fn rook_attacks(sq: int, blockers: u64) -> u64;

/// The bishop moves from a square with the given blockers (`get_bishop_moves`).
pub uninterp spec fn bishop_attacks(sq: int, blockers: u64) -> u64;

/// The squares strictly between two squares on a common ray (`get_between_rays`).
pub uninterp spec fn between_rays(from: int, to: int) -> u64;

/// The knight moves from a square (`get_knight_moves`).
pub uninterp spec fn knight_attacks(sq: int) -> u64;

/// The king moves from a square (`get_king_moves`).
pub uninterp spec fn king_attacks(sq: int) -> u64;

/// The squares a pawn of the color attacks from a square (`get_pawn_attacks`).
pub uninterp spec fn pawn_attack_set(sq: int, c: Color) -> u64;

/// The colored pieces: what `colored_pieces` returns.
pub open spec fn colored(b: cozy_chess::Board, c: Color, p: Piece) -> u64 {
    board_colors(b)[c.to_int()] & board_pieces(b)[p.to_int()]
}

/// All pieces on the board.
pub open spec fn occupied_spec(b: cozy_chess::Board) -> u64 {
    board_colors(b)[0] | board_colors(b)[1]
}

/// The number of a color's pieces other than its king.
pub open spec fn material_count(b: cozy_chess::Board, c: Color) -> int {
    popcount(colored(b, c, Piece::Pawn)) + popcount(colored(b, c, Piece::Knight)) + popcount(
        colored(b, c, Piece::Bishop),
    ) + popcount(colored(b, c, Piece::Rook)) + popcount(colored(b, c, Piece::Queen))
}

/// What `cozy_chess` keeps true of every board it builds (see its
/// `board/validate.rs`): at most sixteen pieces a side with exactly one king,
/// every occupied square holding a piece, no square in two piece bitboards or
/// in both color bitboards, every piece on an occupied square, the pawn that
/// may be taken en passant standing where it should, and every legal move
/// starting from a piece of the side to move. Since the side that has just
/// moved is never in check, no legal move lands on a king; and a king moves
/// to a neighbouring square unless it castles onto its own rook (see
/// `board/movegen/mod.rs`).
pub open spec fn board_valid(b: cozy_chess::Board) -> bool {
    &&& board_pieces(b).len() == 6
    &&& board_colors(b).len() == 2
    &&& forall|s: int, i: int, j: int|
        0 <= i < 6 && 0 <= j < 6 && #[trigger] has(board_pieces(b)[i], s) && #[trigger] has(
            board_pieces(b)[j],
            s,
        ) ==> i == j
    &&& forall|s: int| #[trigger] has(board_colors(b)[0], s) ==> has(board_colors(b)[1], s) == false
    &&& forall|s: int, i: int|
        0 <= i < 6 && #[trigger] has(board_pieces(b)[i], s) ==> has(occupied_spec(b), s)
    &&& material_count(b, Color::White) <= 15
    &&& material_count(b, Color::Black) <= 15
    &&& popcount(colored(b, Color::White, Piece::King)) == 1
    &&& popcount(colored(b, Color::Black, Piece::King)) == 1
    &&& forall|s: int|
        0 <= s < 64 && #[trigger] has(occupied_spec(b), s) ==> piece_on_spec(b, s) is Some
    &&& board_en_passant(b) matches Some(f) ==> f < 8 && has(
        colored(b, board_side(b).opp(), Piece::Pawn),
        make_square(f as int, relative_rank(3, board_side(b).opp())),
    )
    &&& forall|i: int|
        0 <= i < board_legal_moves(b).len() ==> {
            let mv = #[trigger] board_legal_moves(b)[i];
            &&& mv.from < 64
            &&& mv.to < 64
            &&& mv.from != mv.to
            &&& has(board_colors(b)[board_side(b).to_int()], mv.from as int)
            &&& mv.promotion matches Some(p) ==> p != Piece::Pawn && p != Piece::King
            &&& piece_on_spec(b, mv.to as int) != Some(Piece::King)
            &&& piece_on_spec(b, mv.from as int) == Some(Piece::King) && !is_castle(b, mv) ==> -1
                <= square_file(mv.from as int) - square_file(mv.to as int) <= 1
        }
}

/// The first piece kind, in `Piece::ALL` order from `p`, whose bitboard holds `sq`.
pub open spec fn piece_on_from(pieces: Seq<u64>, sq: int, p: int) -> Option<Piece>
    decreases 6 - p,
{
    if p >= 6 {
        None
    } else if has(pieces[p], sq) {
        Some(Piece::of_int(p))
    } else {
        piece_on_from(pieces, sq, p + 1)
    }
}

pub proof fn lemma_piece_on_has(pieces: Seq<u64>, sq: int, p: int)
    requires
        0 <= p,
        piece_on_from(pieces, sq, p) is Some,
    ensures
        ({
            let k = piece_on_from(pieces, sq, p).unwrap();
            has(pieces[k.to_int()], sq) && 0 <= k.to_int() < 6
        }),
    decreases 6 - p,
{
    if p < 6 && has(pieces[p], sq) == false {
        lemma_piece_on_has(pieces, sq, p + 1);
    }
}

pub open spec fn piece_on_spec(b: cozy_chess::Board, sq: int) -> Option<Piece> {
    piece_on_from(board_pieces(b), sq, 0)
}

pub open spec fn color_on_spec(b: cozy_chess::Board, sq: int) -> Option<Color> {
    if has(board_colors(b)[0], sq) {
        Some(Color::White)
    } else if has(board_colors(b)[1], sq) {
        Some(Color::Black)
    } else {
        None
    }
}

pub open spec fn file_distance(a: int, b: int) -> int {
    let d = square_file(a) - square_file(b);
    if d < 0 { -d } else { d }
}

pub open spec fn rank_distance(a: int, b: int) -> int {
    let d = square_rank(a) - square_rank(b);
    if d < 0 { -d } else { d }
}

/// `to` is a knight's jump away from `from`.
pub open spec fn knight_step(from: int, to: int) -> bool {
    0 <= to < 64 && ((file_distance(from, to) == 1 && rank_distance(from, to) == 2) || (
    file_distance(from, to) == 2 && rank_distance(from, to) == 1))
}

/// `to` is a king's step away from `from`.
pub open spec fn king_step(from: int, to: int) -> bool {
    0 <= to < 64 && from != to && file_distance(from, to) <= 1 && rank_distance(from, to) <= 1
}

/// `to` is attacked by a pawn of `color` standing on `from`.
pub open spec fn pawn_attack_step(from: int, to: int, color: Color) -> bool {
    0 <= to < 64 && file_distance(from, to) == 1 && square_rank(to) - square_rank(from) == (
    match color {
        Color::White => 1int,
        Color::Black => -1int,
    })
}

/// The forward pawn moves, as `get_pawn_quiets` computes them.
pub open spec fn pawn_quiets_spec(sq: int, color: Color, blockers: u64) -> u64 {
    let sq_bb = square_bb(sq);
    let one = match color {
        Color::White => sq_bb << 8u64,
        Color::Black => sq_bb >> 8u64,
    } & !blockers;
    if one != 0 && square_rank(sq) == relative_rank(1, color) {
        (one | match color {
            Color::White => one << 8u64,
            Color::Black => one >> 8u64,
        }) & !blockers
    } else {
        one
    }
}

/// The squares from which a king, knight or pawn move set is described.
pub open spec fn step_set(r: u64, step: spec_fn(int) -> bool) -> bool {
    forall|t: int| 0 <= t < 64 ==> (#[trigger] has(r, t) <==> step(t))
}

/// The piece bitboards of the start position.
pub open spec fn startpos_pieces() -> Seq<u64> {
    seq![
        0x00FF_0000_0000_FF00u64,
        0x4200_0000_0000_0042u64,
        0x2400_0000_0000_0024u64,
        0x8100_0000_0000_0081u64,
        0x0800_0000_0000_0008u64,
        0x1000_0000_0000_0010u64,
    ]
}

/// The color bitboards of the start position.
pub open spec fn startpos_colors() -> Seq<u64> {
    seq![0x0000_0000_0000_FFFFu64, 0xFFFF_0000_0000_0000u64]
}

/// A move without promotion.
pub open spec fn plain_move(from: u8, to: u8) -> crate::chess::ChessMove {
    crate::chess::ChessMove { from: from, to: to, promotion: None }
}

/// The twenty moves of the start position: each pawn one or two squares
/// ahead, each knight to one of its two squares in front.
pub open spec fn startpos_moves() -> Seq<crate::chess::ChessMove> {
    seq![
        plain_move(8, 16), plain_move(8, 24), plain_move(9, 17), plain_move(9, 25),
        plain_move(10, 18), plain_move(10, 26), plain_move(11, 19), plain_move(11, 27),
        plain_move(12, 20), plain_move(12, 28), plain_move(13, 21), plain_move(13, 29),
        plain_move(14, 22), plain_move(14, 30), plain_move(15, 23), plain_move(15, 31),
        plain_move(1, 16), plain_move(1, 18), plain_move(6, 21), plain_move(6, 23),
    ]
}

/// The board with the standard start position (`Board::default`): White to
/// move, no en passant square, no check, and the twenty opening moves as its
/// legal moves (in the order in which `generate_moves` hands them out, which
/// is left open).
#[verifier::external_body]
pub(crate) fn board_startpos() -> (b: cozy_chess::Board)
    ensures
        board_pieces(b) == startpos_pieces(),
        board_colors(b) == startpos_colors(),
        board_side(b) == Color::White,
        board_en_passant(b) == None::<u8>,
        board_checkers(b) == 0,
        board_valid(b),
        board_legal_moves(b).len() == 20,
        forall|m: crate::chess::ChessMove| #[trigger] board_legal_moves(b).contains(m)
            <==> startpos_moves().contains(m),
{
    cozy_chess::Board::default()
}

/// The board that a FEN text describes.
pub uninterp spec fn fen_board(fen: Seq<char>) -> cozy_chess::Board;

/// `Board::from_fen(fen, false)`: `Some` exactly when the text is accepted,
/// then the board the text describes, which `cozy_chess` has checked valid.
#[verifier::external_body]
pub(crate) fn board_from_fen(fen: &str) -> (r: Option<cozy_chess::Board>)
    ensures
        r.is_some() == fen_accepted(fen@),
        r matches Some(b) ==> b == fen_board(fen@) && board_valid(b),
{
    cozy_chess::Board::from_fen(fen, false).ok()
}

/// The move that `Move::from_str` reads from a text, `None` where it refuses it.
pub uninterp spec fn uci_move_parsed(text: Seq<char>) -> Option<crate::chess::ChessMove>;

/// The promotion that `Move::from_str` reads from a fifth character: one of
/// the four pieces a pawn may become; the king and pawn letters read as none.
pub open spec fn promotion_of_char(c: char) -> Option<Piece> {
    if c == 'n' {
        Some(Piece::Knight)
    } else if c == 'b' {
        Some(Piece::Bishop)
    } else if c == 'r' {
        Some(Piece::Rook)
    } else if c == 'q' {
        Some(Piece::Queen)
    } else {
        None
    }
}

/// What a move read by `Move::from_str` holds of its text: its squares are
/// named by the first four characters, and its promotion is that of the
/// fifth character, if any.
pub open spec fn parsed_from_text(text: Seq<char>, m: crate::chess::ChessMove) -> bool {
    &&& m.from < 64
    &&& m.to < 64
    &&& text.len() >= 4
    &&& crate::uci::castle_parse::parse_square_spec(text.subrange(0, 2)) == Some(m.from as int)
    &&& crate::uci::castle_parse::parse_square_spec(text.subrange(2, 4)) == Some(m.to as int)
    &&& text.len() == 4 ==> m.promotion is None
    &&& text.len() > 4 ==> m.promotion == promotion_of_char(text[4])
}

/// `Move::from_str` (`cozy_chess` notation, castling as the king taking its
/// rook): the first two characters name the source square and the next two
/// the target (file letter `a` to `h`, rank digit `1` to `8`); a fifth
/// character, when there is one, is the promotion letter; nothing after it is
/// read. The contract names the result and states what a parsed move holds
/// of the text.
#[verifier::external_body]
pub(crate) fn parse_move(text: &str) -> (r: Option<crate::chess::ChessMove>)
    ensures
        r == uci_move_parsed(text@),
        r matches Some(m) ==> parsed_from_text(text@, m),
{
    match text.parse::<cozy_chess::Move>() {
        Ok(m) => Some(from_cozy_move(m)),
        Err(_) => None,
    }
}

/// `Board::clone`, derived: the copy is the same board.
#[verifier::external_body]
pub(crate) fn board_clone(b: &cozy_chess::Board) -> (r: cozy_chess::Board)
    ensures
        r == *b,
{
    b.clone()
}

/// `Board::pieces`.
#[verifier::external_body]
pub(crate) fn pieces(b: &cozy_chess::Board, p: Piece) -> (r: u64)
    ensures
        r == board_pieces(*b)[p.to_int()],
{
    b.pieces(cozy_chess::Piece::index(p.index())).0
}

/// `Board::colors`.
#[verifier::external_body]
pub(crate) fn colors(b: &cozy_chess::Board, c: Color) -> (r: u64)
    ensures
        r == board_colors(*b)[c.to_int()],
{
    b.colors(cozy_chess::Color::index(c.index())).0
}

/// `Board::colored_pieces`: the colors bitboard and the pieces bitboard intersected.
#[verifier::external_body]
pub(crate) fn colored_pieces(b: &cozy_chess::Board, c: Color, p: Piece) -> (r: u64)
    ensures
        r == colored(*b, c, p),
{
    b.colored_pieces(cozy_chess::Color::index(c.index()), cozy_chess::Piece::index(p.index())).0
}

/// `Board::occupied`: the union of the two color bitboards.
#[verifier::external_body]
pub(crate) fn occupied(b: &cozy_chess::Board) -> (r: u64)
    ensures
        r == occupied_spec(*b),
{
    b.occupied().0
}

/// `Board::side_to_move`.
#[verifier::external_body]
pub(crate) fn side_to_move(b: &cozy_chess::Board) -> (r: Color)
    ensures
        r == board_side(*b),
{
    Color::from_index(b.side_to_move() as usize)
}

/// `Board::en_passant`, as a file index.
#[verifier::external_body]
pub(crate) fn en_passant(b: &cozy_chess::Board) -> (r: Option<u8>)
    ensures
        r == board_en_passant(*b),
        r matches Some(f) ==> f < 8,
{
    b.en_passant().map(|f| f as u8)
}

/// `Board::hash`.
#[verifier::external_body]
pub(crate) fn hash(b: &cozy_chess::Board) -> (r: u64)
    ensures
        r == board_hash(*b),
{
    b.hash()
}

/// `Board::checkers`.
#[verifier::external_body]
pub(crate) fn checkers(b: &cozy_chess::Board) -> (r: u64)
    ensures
        r == board_checkers(*b),
{
    b.checkers().0
}

/// `Board::status`. It generates moves, which looks up the king, so the
/// board is to be valid.
#[verifier::external_body]
pub(crate) fn status(b: &cozy_chess::Board) -> (r: GameStatus)
    requires
        board_valid(*b),
    ensures
        r == board_status(*b),
        board_legal_moves(*b).len() == 0 ==> r != GameStatus::Ongoing && (r == GameStatus::Won
            <==> board_checkers(*b) != 0),
        board_legal_moves(*b).len() > 0 ==> r != GameStatus::Won,
{
    match b.status() {
        cozy_chess::GameStatus::Won => GameStatus::Won,
        cozy_chess::GameStatus::Drawn => GameStatus::Drawn,
        cozy_chess::GameStatus::Ongoing => GameStatus::Ongoing,
    }
}

/// `Board::piece_on`: the first kind in `Piece::ALL` whose bitboard holds the square.
#[verifier::external_body]
pub(crate) fn piece_on(b: &cozy_chess::Board, sq: u8) -> (r: Option<Piece>)
    requires
        sq < 64,
    ensures
        r == piece_on_spec(*b, sq as int),
{
    b.piece_on(cozy_chess::Square::index(sq as usize)).map(|p| Piece::from_index(p as usize))
}

/// `Board::color_on`.
#[verifier::external_body]
pub(crate) fn color_on(b: &cozy_chess::Board, sq: u8) -> (r: Option<Color>)
    requires
        sq < 64,
    ensures
        r == color_on_spec(*b, sq as int),
{
    b.color_on(cozy_chess::Square::index(sq as usize)).map(|c| Color::from_index(c as usize))
}

/// `Board::king`: the lowest square of the color's king bitboard (it panics
/// on a board without that king, which no valid board is).
#[verifier::external_body]
pub(crate) fn king(b: &cozy_chess::Board, c: Color) -> (r: u8)
    requires
        board_valid(*b),
    ensures
        r < 64,
        r == lowest_square(colored(*b, c, Piece::King)),
{
    b.king(cozy_chess::Color::index(c.index())) as u8
}

/// The board after passing the move.
pub uninterp spec fn board_passed(b: cozy_chess::Board) -> cozy_chess::Board;

/// `Board::null_move`: `None` when the side to move is in check; otherwise the
/// board after passing: the same pieces with the other side to move and no
/// en passant file. It looks up the kings, so the board is to be valid.
#[verifier::external_body]
pub(crate) fn null_move(b: &cozy_chess::Board) -> (r: Option<cozy_chess::Board>)
    requires
        board_valid(*b),
    ensures
        r.is_some() == (board_checkers(*b) == 0),
        r matches Some(nb) ==> {
            &&& nb == board_passed(*b)
            &&& board_pieces(nb) == board_pieces(*b)
            &&& board_colors(nb) == board_colors(*b)
            &&& board_side(nb) == board_side(*b).opp()
            &&& board_en_passant(nb) == None::<u8>
            &&& board_valid(nb)
        },
{
    b.null_move()
}

/// The board after a move is played on it.
pub uninterp spec fn board_after(b: cozy_chess::Board, mv: crate::chess::ChessMove) -> cozy_chess::Board;

/// The bitboards with entry `i` xored with `bb`.
pub open spec fn toggle(s: Seq<u64>, i: int, bb: u64) -> Seq<u64> {
    s.update(i, s[i] ^ bb)
}

/// The square a pawn of the side to move takes en passant on, if any.
pub open spec fn ep_square(b: cozy_chess::Board) -> Option<int> {
    match board_en_passant(b) {
        Some(f) => Some(make_square(f as int, relative_rank(5, board_side(b)))),
        None => None,
    }
}

/// Castling, written as the king taking its own rook.
pub open spec fn is_castle(b: cozy_chess::Board, mv: crate::chess::ChessMove) -> bool {
    has(board_colors(b)[board_side(b).to_int()], mv.to as int)
}

/// Where king and rook land when castling: the g and f files toward the rook
/// on the king's right, the c and d files otherwise, on the back rank.
pub open spec fn castle_targets(b: cozy_chess::Board, mv: crate::chess::ChessMove) -> (int, int) {
    let back = relative_rank(0, board_side(b));
    if square_file(mv.from as int) < square_file(mv.to as int) {
        (make_square(6, back), make_square(5, back))
    } else {
        (make_square(2, back), make_square(3, back))
    }
}

/// The piece bitboards after a move, as `play_unchecked` xors squares in and
/// out: castling lifts king and rook and drops them on their targets; any
/// other move lifts the piece, drops it on the target, takes off the piece
/// there, swaps a promoting pawn for its new piece, and takes off the pawn
/// passed by an en passant capture.
pub open spec fn pieces_after(b: cozy_chess::Board, mv: crate::chess::ChessMove) -> Seq<u64> {
    let p = board_pieces(b);
    let from = square_bb(mv.from as int);
    let to = square_bb(mv.to as int);
    if is_castle(b, mv) {
        let (k, r) = castle_targets(b, mv);
        toggle(toggle(p, 5, from ^ square_bb(k)), 3, to ^ square_bb(r))
    } else {
        let moved = piece_on_spec(b, mv.from as int).unwrap().to_int();
        let p1 = toggle(p, moved, from ^ to);
        let p2 = match piece_on_spec(b, mv.to as int) {
            Some(v) => toggle(p1, v.to_int(), to),
            None => p1,
        };
        if moved == 0 {
            match mv.promotion {
                Some(pr) => toggle(toggle(p2, 0, to), pr.to_int(), to),
                None => if ep_square(b) == Some(mv.to as int) {
                    toggle(
                        p2,
                        0,
                        square_bb(
                            make_square(square_file(mv.to as int), relative_rank(4, board_side(b))),
                        ),
                    )
                } else {
                    p2
                },
            }
        } else {
            p2
        }
    }
}

/// The color bitboards after a move, changed on the same squares as the
/// pieces.
pub open spec fn colors_after(b: cozy_chess::Board, mv: crate::chess::ChessMove) -> Seq<u64> {
    let c = board_side(b).to_int();
    let o = board_side(b).opp().to_int();
    let cs = board_colors(b);
    let from = square_bb(mv.from as int);
    let to = square_bb(mv.to as int);
    if is_castle(b, mv) {
        let (k, r) = castle_targets(b, mv);
        toggle(cs, c, from ^ to ^ square_bb(k) ^ square_bb(r))
    } else {
        let moved = piece_on_spec(b, mv.from as int).unwrap().to_int();
        let c1 = toggle(cs, c, from ^ to);
        let c2 = match piece_on_spec(b, mv.to as int) {
            Some(v) => toggle(c1, o, to),
            None => c1,
        };
        if moved == 0 && mv.promotion is None && ep_square(b) == Some(mv.to as int) {
            toggle(
                c2,
                o,
                square_bb(make_square(square_file(mv.to as int), relative_rank(4, board_side(b)))),
            )
        } else {
            c2
        }
    }
}

/// `Board::play_unchecked` on a legal move: the board becomes the one after the
/// move, and the other side moves next.
#[verifier::external_body]
pub(crate) fn play_unchecked(b: &mut cozy_chess::Board, mv: crate::chess::ChessMove)
    requires
        board_valid(*old(b)),
        board_legal_moves(*old(b)).contains(mv),
    ensures
        *final(b) == board_after(*old(b), mv),
        board_pieces(*final(b)) == pieces_after(*old(b), mv),
        board_colors(*final(b)) == colors_after(*old(b), mv),
        board_side(*final(b)) == board_side(*old(b)).opp(),
        board_valid(*final(b)),
{
    b.play_unchecked(to_cozy_move(mv))
}

/// All legal moves, in the order in which `Board::generate_moves` hands them
/// out (on a valid board: move generation looks up the king).
#[verifier::external_body]
pub(crate) fn legal_moves(b: &cozy_chess::Board) -> (r: Vec<crate::chess::ChessMove>)
    requires
        board_valid(*b),
    ensures
        r@ == board_legal_moves(*b),
        forall|i: int| 0 <= i < r@.len() ==> #[trigger] r@[i].from < 64 && r@[i].to < 64,
{
    let mut list: Vec<cozy_chess::Move> = Vec::new();
    b.generate_moves(|moves| {
        list.extend(moves);
        false
    });
    list.into_iter().map(from_cozy_move).collect()
}

/// `Board::is_legal`: whether the move is one of the legal moves, which are
/// the moves that `Board::generate_moves` hands out.
#[verifier::external_body]
pub(crate) fn is_legal(b: &cozy_chess::Board, mv: crate::chess::ChessMove) -> (r: bool)
    requires
        board_valid(*b),
        mv.from < 64,
        mv.to < 64,
    ensures
        r == board_legal_moves(*b).contains(mv),
{
    b.is_legal(to_cozy_move(mv))
}

/// Converts a move to `cozy_chess`'s type, square for square.
#[verifier::external_body]
pub(crate) fn to_cozy_move(mv: crate::chess::ChessMove) -> cozy_chess::Move
    requires
        mv.from < 64,
        mv.to < 64,
{
    cozy_chess::Move {
        from: cozy_chess::Square::index(mv.from as usize),
        to: cozy_chess::Square::index(mv.to as usize),
        promotion: mv.promotion.map(|p| cozy_chess::Piece::index(p.index())),
    }
}

/// Converts a move of `cozy_chess` to the library's type, square for square.
#[verifier::external_body]
pub(crate) fn from_cozy_move(mv: cozy_chess::Move) -> (r: crate::chess::ChessMove)
    ensures
        r.from < 64,
        r.to < 64,
{
    crate::chess::ChessMove {
        from: mv.from as u8,
        to: mv.to as u8,
        promotion: mv.promotion.map(|p| Piece::from_index(p as usize)),
    }
}

/// `get_rook_moves`.
#[verifier::external_body]
pub(crate) fn rook_moves(sq: u8, blockers: u64) -> (r: u64)
    requires
        sq < 64,
    ensures
        r == rook_attacks(sq as int, blockers),
        popcount(r) <= 14,
{
    cozy_chess::get_rook_moves(cozy_chess::Square::index(sq as usize), cozy_chess::BitBoard(blockers)).0
}

/// `get_bishop_moves`.
#[verifier::external_body]
pub(crate) fn bishop_moves(sq: u8, blockers: u64) -> (r: u64)
    requires
        sq < 64,
    ensures
        r == bishop_attacks(sq as int, blockers),
        popcount(r) <= 13,
{
    cozy_chess::get_bishop_moves(cozy_chess::Square::index(sq as usize), cozy_chess::BitBoard(blockers)).0
}

/// `get_between_rays`.
#[verifier::external_body]
pub(crate) fn between(from: u8, to: u8) -> (r: u64)
    requires
        from < 64,
        to < 64,
    ensures
        r == between_rays(from as int, to as int),
{
    cozy_chess::get_between_rays(cozy_chess::Square::index(from as usize), cozy_chess::Square::index(to as usize)).0
}

/// `get_knight_moves`: the squares a knight's jump away.
#[verifier::external_body]
pub(crate) fn knight_moves(sq: u8) -> (r: u64)
    requires
        sq < 64,
    ensures
        r == knight_attacks(sq as int),
        popcount(r) <= 8,
        step_set(r, |t: int| knight_step(sq as int, t)),
{
    cozy_chess::get_knight_moves(cozy_chess::Square::index(sq as usize)).0
}

/// `get_king_moves`: the squares a king's step away.
#[verifier::external_body]
pub(crate) fn king_moves(sq: u8) -> (r: u64)
    requires
        sq < 64,
    ensures
        r == king_attacks(sq as int),
        popcount(r) <= 8,
        step_set(r, |t: int| king_step(sq as int, t)),
{
    cozy_chess::get_king_moves(cozy_chess::Square::index(sq as usize)).0
}

/// `get_pawn_attacks`: the two diagonal squares ahead of the pawn.
#[verifier::external_body]
pub(crate) fn pawn_attacks(sq: u8, c: Color) -> (r: u64)
    requires
        sq < 64,
    ensures
        r == pawn_attack_set(sq as int, c),
        popcount(r) <= 2,
        step_set(r, |t: int| pawn_attack_step(sq as int, t, c)),
{
    cozy_chess::get_pawn_attacks(cozy_chess::Square::index(sq as usize), cozy_chess::Color::index(c.index())).0
}

/// `get_pawn_quiets`, whose source is the shifts of `pawn_quiets_spec`.
#[verifier::external_body]
pub(crate) fn pawn_quiets(sq: u8, c: Color, blockers: u64) -> (r: u64)
    requires
        sq < 64,
    ensures
        r == pawn_quiets_spec(sq as int, c, blockers),
        popcount(r) <= 2,
{
    cozy_chess::get_pawn_quiets(
        cozy_chess::Square::index(sq as usize),
        cozy_chess::Color::index(c.index()),
        cozy_chess::BitBoard(blockers),
    ).0
}

} // verus!
