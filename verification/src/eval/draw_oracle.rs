//! Recognises material balances that are known draws.

use vstd::prelude::*;
use crate::board::{colored, colored_pieces};
use crate::chess::{Color, Piece, bb_len, popcount};

verus! {

/// The number of pieces of a kind and color on the board.
pub open spec fn count_of(b: cozy_chess::Board, c: Color, p: Piece) -> int {
    popcount(colored(b, c, p))
}

/// The counted material: every piece but the kings and Black's bishops.
pub open spec fn counted_material(b: cozy_chess::Board) -> int {
    count_of(b, Color::White, Piece::Queen) + count_of(b, Color::White, Piece::Rook) + count_of(
        b,
        Color::White,
        Piece::Bishop,
    ) + count_of(b, Color::White, Piece::Knight) + count_of(b, Color::White, Piece::Pawn)
        + count_of(b, Color::Black, Piece::Queen) + count_of(b, Color::Black, Piece::Rook)
        + count_of(b, Color::Black, Piece::Knight) + count_of(b, Color::Black, Piece::Pawn)
}

/// The draw rules, over the piece counts.
pub open spec fn oracle_spec(b: cozy_chess::Board) -> bool {
    let wq = count_of(b, Color::White, Piece::Queen);
    let wr = count_of(b, Color::White, Piece::Rook);
    let wb = count_of(b, Color::White, Piece::Bishop);
    let wn = count_of(b, Color::White, Piece::Knight);
    let bq = count_of(b, Color::Black, Piece::Queen);
    let br = count_of(b, Color::Black, Piece::Rook);
    let bb = count_of(b, Color::Black, Piece::Bishop);
    let bn = count_of(b, Color::Black, Piece::Knight);
    let total = counted_material(b);
    ||| total == 2
    ||| total == 3 && (wn != 0 || wb != 0 || bn != 0 || bb != 0)
    ||| total == 4 && (wn != 0 || wb != 0) && (bn != 0 || bb != 0)
    ||| total == 4 && (wn == 2 || bn == 2)
    ||| total == 5 && wn == 2 && (bn != 0 || bb != 0)
    ||| total == 5 && bn == 2 && (wn != 0 || wb != 0)
    ||| total == 5 && wb == 2 && bb != 0
    ||| total == 5 && bb == 2 && wb != 0
    ||| total == 4 && wr != 0 && br != 0
    ||| total == 4 && wq != 0 && bq != 0
}

/// Whether the material on the board is a known draw.
pub fn oracle_lookup(board: &cozy_chess::Board) -> (draw: bool)
    ensures
        draw == oracle_spec(*board),
        counted_material(*board) == 2 ==> draw,
        counted_material(*board) == 3 && (count_of(*board, Color::White, Piece::Knight) > 0
            || count_of(*board, Color::White, Piece::Bishop) > 0 || count_of(*board, Color::Black, Piece::Knight) > 0
            || count_of(*board, Color::Black, Piece::Bishop) > 0) ==> draw,
        counted_material(*board) == 4 && count_of(*board, Color::White, Piece::Rook) > 0 && count_of(
            *board,
            Color::Black,
            Piece::Rook,
        ) > 0 ==> draw,
        counted_material(*board) == 4 && count_of(*board, Color::White, Piece::Queen) > 0 && count_of(
            *board,
            Color::Black,
            Piece::Queen,
        ) > 0 ==> draw,
        counted_material(*board) == 4 && (count_of(*board, Color::White, Piece::Knight) > 0 || count_of(
            *board,
            Color::White,
            Piece::Bishop,
        ) > 0) && (count_of(*board, Color::Black, Piece::Knight) > 0 || count_of(
            *board,
            Color::Black,
            Piece::Bishop,
        ) > 0) ==> draw,
        counted_material(*board) == 4 && (count_of(*board, Color::White, Piece::Knight) == 2 || count_of(
            *board,
            Color::Black,
            Piece::Knight,
        ) == 2) ==> draw,
        counted_material(*board) == 5 && count_of(*board, Color::White, Piece::Knight) == 2 && (count_of(
            *board,
            Color::Black,
            Piece::Knight,
        ) > 0 || count_of(*board, Color::Black, Piece::Bishop) > 0) ==> draw,
        counted_material(*board) == 5 && count_of(*board, Color::Black, Piece::Knight) == 2 && (count_of(
            *board,
            Color::White,
            Piece::Knight,
        ) > 0 || count_of(*board, Color::White, Piece::Bishop) > 0) ==> draw,
        counted_material(*board) == 5 && count_of(*board, Color::White, Piece::Bishop) == 2 && count_of(
            *board,
            Color::Black,
            Piece::Bishop,
        ) > 0 ==> draw,
        counted_material(*board) == 5 && count_of(*board, Color::Black, Piece::Bishop) == 2 && count_of(
            *board,
            Color::White,
            Piece::Bishop,
        ) > 0 ==> draw,
        counted_material(*board) > 5 || counted_material(*board) < 2 ==> !draw,
{
    let white = Color::White;
    let black = Color::Black;

    let white_num_queens = bb_len(colored_pieces(board, white, Piece::Queen));
    let white_num_rooks = bb_len(colored_pieces(board, white, Piece::Rook));
    let white_num_bishops = bb_len(colored_pieces(board, white, Piece::Bishop));
    let white_num_knights = bb_len(colored_pieces(board, white, Piece::Knight));
    let white_num_pawns = bb_len(colored_pieces(board, white, Piece::Pawn));

    let black_num_queens = bb_len(colored_pieces(board, black, Piece::Queen));
    let black_num_rooks = bb_len(colored_pieces(board, black, Piece::Rook));
    let black_num_bishops = bb_len(colored_pieces(board, black, Piece::Bishop));
    let black_num_knights = bb_len(colored_pieces(board, black, Piece::Knight));
    let black_num_pawns = bb_len(colored_pieces(board, black, Piece::Pawn));

    let total_pieces = white_num_queens + white_num_rooks + white_num_bishops + white_num_knights
        + white_num_pawns + black_num_queens + black_num_rooks + black_num_knights
        + black_num_pawns;

    let mut draw = false;

    if total_pieces == 2 {
        draw = true;
    }
    if total_pieces == 3 && (white_num_knights != 0 || white_num_bishops != 0 || black_num_knights
        != 0 || black_num_bishops != 0) {
        draw = true;
    }
    if total_pieces == 4 && (white_num_knights != 0 || white_num_bishops != 0) && (
    black_num_knights != 0 || black_num_bishops != 0) {
        draw = true;
    }
    if total_pieces == 4 && (white_num_knights == 2 || black_num_knights == 2) {
        draw = true;
    }
    if total_pieces == 5 && white_num_knights == 2 && (black_num_knights != 0 || black_num_bishops
        != 0) {
        draw = true;
    }
    if total_pieces == 5 && black_num_knights == 2 && (white_num_knights != 0 || white_num_bishops
        != 0) {
        draw = true;
    }
    if total_pieces == 5 && white_num_bishops == 2 && black_num_bishops != 0 {
        draw = true;
    }
    if total_pieces == 5 && black_num_bishops == 2 && white_num_bishops != 0 {
        draw = true;
    }
    if total_pieces == 4 && white_num_rooks != 0 && black_num_rooks != 0 {
        draw = true;
    }
    if total_pieces == 4 && white_num_queens != 0 && black_num_queens != 0 {
        draw = true;
    }

    draw
}

} // verus!
