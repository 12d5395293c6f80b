//! Castling notation: UCI writes castling as the king's two-square move,
//! `cozy_chess` as the king capturing its own rook.

use vstd::prelude::*;
use crate::board::{parsed_from_text, piece_on, piece_on_spec};
use crate::chess::{ChessMove, Piece, make_square, square_file, square_rank};
use crate::text::string_push;

verus! {

pub open spec fn file_char(f: int) -> char {
    (97 + f) as char
}

pub open spec fn rank_char(r: int) -> char {
    (49 + r) as char
}

/// A square's name, such as `e1`.
pub open spec fn square_name(s: int) -> Seq<char> {
    seq![file_char(square_file(s)), rank_char(square_rank(s))]
}

/// The square a two-character name stands for.
pub open spec fn parse_square_spec(s: Seq<char>) -> Option<int> {
    if s.len() == 2 && 'a' <= s[0] <= 'h' && '1' <= s[1] <= '8' {
        Some(make_square(s[0] as int - 97, s[1] as int - 49))
    } else {
        None
    }
}

/// The letter of a piece kind.
pub open spec fn piece_char(p: Piece) -> char {
    match p {
        Piece::Pawn => 'p',
        Piece::Knight => 'n',
        Piece::Bishop => 'b',
        Piece::Rook => 'r',
        Piece::Queen => 'q',
        Piece::King => 'k',
    }
}

/// Whether the first four characters are the king's castling move from
/// `from` to one of the two given target squares, with a piece on `from` to check.
pub open spec fn castles_from(mv: Seq<char>, rank: char) -> bool {
    mv[0] == 'e' && mv[1] == rank && (mv[2] == 'c' || mv[2] == 'g') && mv[3] == rank
}

/// A UCI move in `cozy_chess`'s notation: a king's castling move from e1 or e8
/// becomes the king taking its rook; everything else stays as it is.
pub open spec fn regular_to_960_spec(mv: Seq<char>, b: cozy_chess::Board) -> Seq<char> {
    if castles_from(mv, '1') && piece_on_spec(b, 4) == Some(Piece::King) {
        if mv[2] == 'c' {
            seq!['e', '1', 'a', '1']
        } else {
            seq!['e', '1', 'h', '1']
        }
    } else if castles_from(mv, '8') && piece_on_spec(b, 60) == Some(Piece::King) {
        if mv[2] == 'c' {
            seq!['e', '8', 'a', '8']
        } else {
            seq!['e', '8', 'h', '8']
        }
    } else {
        mv
    }
}

fn lit(s: &str) -> (r: String)
    ensures
        r@ == s@,
{
    String::from_str(s)
}

#[allow(non_snake_case)]
pub fn _regular_to_960_(mv_string: String, board: &cozy_chess::Board) -> (r: String)
    requires
        mv_string@.len() >= 4,
        parse_square_spec(mv_string@.subrange(0, 2)) is Some,
        castles_from(mv_string@, '1') ==> piece_on_spec(*board, 4) is Some,
        castles_from(mv_string@, '8') ==> piece_on_spec(*board, 60) is Some,
    ensures
        r@ == regular_to_960_spec(mv_string@, *board),
{
    let c0 = mv_string.as_str().get_char(0);
    let c1 = mv_string.as_str().get_char(1);
    let c2 = mv_string.as_str().get_char(2);
    let c3 = mv_string.as_str().get_char(3);
    let castle_target = (c2 == 'c' || c2 == 'g');
    if c0 == 'e' && c1 == '1' && castle_target && c3 == '1' && piece_on(board, 4) == Some(
        Piece::King,
    ) {
        if c2 == 'c' {
            proof {
                reveal_strlit("e1a1");
            }
            lit("e1a1")
        } else {
            proof {
                reveal_strlit("e1h1");
            }
            lit("e1h1")
        }
    } else if c0 == 'e' && c1 == '8' && castle_target && c3 == '8' && piece_on(board, 60) == Some(
        Piece::King,
    ) {
        if c2 == 'c' {
            proof {
                reveal_strlit("e8a8");
            }
            lit("e8a8")
        } else {
            proof {
                reveal_strlit("e8h8");
            }
            lit("e8h8")
        }
    } else {
        mv_string
    }
}

/// A move in UCI notation: the king taking its rook from e1 or e8 becomes the
/// king's two-square castling move; otherwise the two square names and the
/// promotion letter, if any.
pub open spec fn ninesixty_to_regular_spec(mv: ChessMove, b: cozy_chess::Board) -> Seq<char> {
    if mv.from == 4 && (mv.to == 0 || mv.to == 7) && piece_on_spec(b, 4) == Some(Piece::King) {
        if mv.to == 0 {
            seq!['e', '1', 'c', '1']
        } else {
            seq!['e', '1', 'g', '1']
        }
    } else if mv.from == 60 && (mv.to == 56 || mv.to == 63) && piece_on_spec(b, 60) == Some(
        Piece::King,
    ) {
        if mv.to == 56 {
            seq!['e', '8', 'c', '8']
        } else {
            seq!['e', '8', 'g', '8']
        }
    } else {
        move_text(mv)
    }
}

fn push_square(s: &mut String, sq: u8)
    requires
        sq < 64,
    ensures
        final(s)@ == old(s)@ + square_name(sq as int),
{
    let f = sq % 8;
    let r = sq / 8;
    let fc = ((97 + f) as u8) as char;
    let rc = ((49 + r) as u8) as char;
    string_push(s, fc);
    string_push(s, rc);
    assert(final(s)@ =~= old(s)@ + square_name(sq as int));
}

fn piece_letter(p: Piece) -> (c: char)
    ensures
        c == piece_char(p),
{
    match p {
        Piece::Pawn => 'p',
        Piece::Knight => 'n',
        Piece::Bishop => 'b',
        Piece::Rook => 'r',
        Piece::Queen => 'q',
        Piece::King => 'k',
    }
}

#[allow(non_snake_case)]
pub fn _960_to_regular_(mv: Option<ChessMove>, board: &cozy_chess::Board) -> (r: String)
    requires
        mv matches Some(m) && m.from < 64 && m.to < 64,
        mv.unwrap().from == 4 && (mv.unwrap().to == 0 || mv.unwrap().to == 7) ==> piece_on_spec(
            *board,
            4,
        ) is Some,
        mv.unwrap().from == 60 && (mv.unwrap().to == 56 || mv.unwrap().to == 63) ==> piece_on_spec(
            *board,
            60,
        ) is Some,
    ensures
        r@ == ninesixty_to_regular_spec(mv.unwrap(), *board),
{
    let mv_parsed = match mv {
        Some(m) => m,
        None => {
            assert(false);
            ChessMove { from: 0, to: 0, promotion: None }
        },
    };
    let from = mv_parsed.from;
    let to = mv_parsed.to;
    if from == 4 && (to == 0 || to == 7) && piece_on(board, 4) == Some(Piece::King) {
        if to == 0 {
            proof {
                reveal_strlit("e1c1");
            }
            lit("e1c1")
        } else {
            proof {
                reveal_strlit("e1g1");
            }
            lit("e1g1")
        }
    } else if from == 60 && (to == 56 || to == 63) && piece_on(board, 60) == Some(Piece::King) {
        if to == 56 {
            proof {
                reveal_strlit("e8c8");
            }
            lit("e8c8")
        } else {
            proof {
                reveal_strlit("e8g8");
            }
            lit("e8g8")
        }
    } else {
        let mut uci_mv = String::new();
        push_square(&mut uci_mv, from);
        push_square(&mut uci_mv, to);
        match mv_parsed.promotion {
            Some(p) => {
                string_push(&mut uci_mv, piece_letter(p));
            },
            None => {},
        }
        assert(uci_mv@ =~= ninesixty_to_regular_spec(mv_parsed, *board));
        uci_mv
    }
}

} // verus!

verus! {

/// A move written as its two square names and its promotion letter, if any.
pub open spec fn move_text(mv: ChessMove) -> Seq<char> {
    square_name(mv.from as int) + square_name(mv.to as int) + match mv.promotion {
        Some(p) => seq![piece_char(p)],
        None => Seq::empty(),
    }
}

proof fn lemma_square_name_chars(s: int)
    requires
        0 <= s < 64,
    ensures
        square_name(s)[0] as int == 97 + s % 8,
        square_name(s)[1] as int == 49 + s / 8,
        square_name(s).len() == 2,
{
}

/// Writing a move in UCI notation and reading it back in `cozy_chess`'s
/// notation gives the move's own squares and promotion: castling goes out as
/// the king's two-square move and comes back as the king taking its rook.
/// Left out: a king on e1 or e8 moving two squares along its rank, or
/// promoting, which no legal move does.
pub proof fn lemma_castling_notation_roundtrip(mv: ChessMove, b: cozy_chess::Board)
    requires
        mv.from < 64,
        mv.to < 64,
        piece_on_spec(b, 4) == Some(Piece::King) && mv.from == 4 ==> mv.to != 2 && mv.to != 6
            && mv.promotion is None,
        piece_on_spec(b, 60) == Some(Piece::King) && mv.from == 60 ==> mv.to != 58 && mv.to != 62
            && mv.promotion is None,
    ensures
        regular_to_960_spec(ninesixty_to_regular_spec(mv, b), b) == move_text(mv),
{
    let out = ninesixty_to_regular_spec(mv, b);
    lemma_square_name_chars(mv.from as int);
    lemma_square_name_chars(mv.to as int);
    let t = move_text(mv);
    assert(t[0] == square_name(mv.from as int)[0]);
    assert(t[1] == square_name(mv.from as int)[1]);
    assert(t[2] == square_name(mv.to as int)[0]);
    assert(t[3] == square_name(mv.to as int)[1]);
    if mv.from == 4 && (mv.to == 0 || mv.to == 7) && piece_on_spec(b, 4) == Some(Piece::King) {
        assert(move_text(mv) =~= regular_to_960_spec(out, b));
    } else if mv.from == 60 && (mv.to == 56 || mv.to == 63) && piece_on_spec(b, 60) == Some(
        Piece::King,
    ) {
        assert(move_text(mv) =~= regular_to_960_spec(out, b));
    } else {
        assert(out == t);
        if castles_from(t, '1') {
            assert(mv.from == 4);
        }
        if castles_from(t, '8') {
            assert(mv.from == 60);
        }
    }
}


/// The same move text comes from the same move.
proof fn lemma_move_text_injective(a: ChessMove, c: ChessMove)
    requires
        a.from < 64,
        a.to < 64,
        c.from < 64,
        c.to < 64,
        move_text(a) == move_text(c),
    ensures
        a == c,
{
    lemma_square_name_chars(a.from as int);
    lemma_square_name_chars(a.to as int);
    lemma_square_name_chars(c.from as int);
    lemma_square_name_chars(c.to as int);
    let ta = move_text(a);
    let tc = move_text(c);
    assert(ta[0] == tc[0] && ta[1] == tc[1] && ta[2] == tc[2] && ta[3] == tc[3]);
    assert(a.from == c.from);
    assert(a.to == c.to);
    match (a.promotion, c.promotion) {
        (Some(p), Some(q)) => {
            assert(ta[4] == tc[4]);
        },
        (Some(p), None) => {
            assert(ta.len() != tc.len());
        },
        (None, Some(q)) => {
            assert(ta.len() != tc.len());
        },
        (None, None) => {},
    }
}

/// Reading a move in UCI notation into `cozy_chess`'s notation and writing it
/// back gives the text it came from: castling comes in as the king's
/// two-square move, is read as the king taking its rook and goes out as the
/// two-square move again. `read` is the move that the converted text names.
/// Left out: text in which a king on e1 or e8 already takes its own corner
/// square, which is `cozy_chess`'s notation, not UCI's, and a promotion
/// written on a king's castling move.
pub proof fn lemma_uci_notation_roundtrip(mv: ChessMove, read: ChessMove, b: cozy_chess::Board)
    requires
        mv.from < 64,
        mv.to < 64,
        read.from < 64,
        read.to < 64,
        move_text(read) == regular_to_960_spec(move_text(mv), b),
        !(mv.from == 4 && (mv.to == 0 || mv.to == 7) && piece_on_spec(b, 4) == Some(Piece::King)),
        !(mv.from == 60 && (mv.to == 56 || mv.to == 63) && piece_on_spec(b, 60) == Some(Piece::King)),
        piece_on_spec(b, 4) == Some(Piece::King) && mv.from == 4 && (mv.to == 2 || mv.to == 6)
            ==> mv.promotion is None,
        piece_on_spec(b, 60) == Some(Piece::King) && mv.from == 60 && (mv.to == 58 || mv.to == 62)
            ==> mv.promotion is None,
    ensures
        ninesixty_to_regular_spec(read, b) == move_text(mv),
{
    lemma_square_name_chars(mv.from as int);
    lemma_square_name_chars(mv.to as int);
    lemma_square_name_chars(read.from as int);
    lemma_square_name_chars(read.to as int);
    let t = move_text(mv);
    let r = move_text(read);
    assert(t[0] == square_name(mv.from as int)[0]);
    assert(t[1] == square_name(mv.from as int)[1]);
    assert(t[2] == square_name(mv.to as int)[0]);
    assert(t[3] == square_name(mv.to as int)[1]);
    assert(r[0] == square_name(read.from as int)[0]);
    assert(r[1] == square_name(read.from as int)[1]);
    assert(r[2] == square_name(read.to as int)[0]);
    assert(r[3] == square_name(read.to as int)[1]);
    if castles_from(t, '1') && piece_on_spec(b, 4) == Some(Piece::King) {
        assert(mv.from == 4);
        assert(read.from == 4);
        assert(r.len() == 4);
        assert(read.promotion is None);
        if t[2] == 'c' {
            assert(read.to == 0);
            assert(mv.to == 2);
            assert(t =~= seq!['e', '1', 'c', '1']);
        } else {
            assert(read.to == 7);
            assert(mv.to == 6);
            assert(t =~= seq!['e', '1', 'g', '1']);
        }
    } else if castles_from(t, '8') && piece_on_spec(b, 60) == Some(Piece::King) {
        assert(mv.from == 60);
        assert(read.from == 60);
        assert(r.len() == 4);
        assert(read.promotion is None);
        if t[2] == 'c' {
            assert(read.to == 56);
            assert(mv.to == 58);
            assert(t =~= seq!['e', '8', 'c', '8']);
        } else {
            assert(read.to == 63);
            assert(mv.to == 62);
            assert(t =~= seq!['e', '8', 'g', '8']);
        }
    } else {
        lemma_move_text_injective(read, mv);
    }
}


/// A square name reads back as the square it names.
proof fn lemma_parse_square_name(x: Seq<char>, sq: int)
    requires
        x.len() == 2,
        parse_square_spec(x) == Some(sq),
    ensures
        square_name(sq) =~= x,
        0 <= sq < 64,
{
    let f = x[0] as int - 97;
    let r = x[1] as int - 49;
    assert(0 <= f < 8 && 0 <= r < 8);
    assert(sq == r * 8 + f);
    assert(sq % 8 == f && sq / 8 == r) by (nonlinear_arith)
        requires
            sq == r * 8 + f,
            0 <= f < 8,
            0 <= r < 8,
    ;
    assert(file_char(f) == x[0]);
    assert(rank_char(r) == x[1]);
}

/// Reading a legal move's UCI text into `cozy_chess`'s notation, parsing it
/// as `Move::from_str` does, and writing the parsed move back in UCI notation
/// gives the text it came from. `read` is the move parsed from the converted
/// text. Left out, as in `lemma_uci_notation_roundtrip`: text in which a king
/// on e1 or e8 already takes its own corner square, and a promotion on a
/// king's castling move; and promotions to a pawn or king, which no legal
/// move makes.
pub proof fn lemma_uci_text_roundtrip(mv: ChessMove, read: ChessMove, b: cozy_chess::Board)
    requires
        mv.from < 64,
        mv.to < 64,
        mv.promotion matches Some(p) ==> p != Piece::Pawn && p != Piece::King,
        !(mv.from == 4 && (mv.to == 0 || mv.to == 7) && piece_on_spec(b, 4) == Some(Piece::King)),
        !(mv.from == 60 && (mv.to == 56 || mv.to == 63) && piece_on_spec(b, 60) == Some(Piece::King)),
        piece_on_spec(b, 4) == Some(Piece::King) && mv.from == 4 && (mv.to == 2 || mv.to == 6)
            ==> mv.promotion is None,
        piece_on_spec(b, 60) == Some(Piece::King) && mv.from == 60 && (mv.to == 58 || mv.to == 62)
            ==> mv.promotion is None,
        parsed_from_text(regular_to_960_spec(move_text(mv), b), read),
    ensures
        ninesixty_to_regular_spec(read, b) == move_text(mv),
{
    let t = regular_to_960_spec(move_text(mv), b);
    let s = move_text(mv);
    lemma_square_name_chars(mv.from as int);
    lemma_square_name_chars(mv.to as int);
    assert(s[0] == square_name(mv.from as int)[0]);
    assert(s[1] == square_name(mv.from as int)[1]);
    assert(s[2] == square_name(mv.to as int)[0]);
    assert(s[3] == square_name(mv.to as int)[1]);
    lemma_parse_square_name(t.subrange(0, 2), read.from as int);
    lemma_parse_square_name(t.subrange(2, 4), read.to as int);
    if t.len() > 4 {
        assert(t == s);
        let p = mv.promotion.unwrap();
        assert(t[4] == piece_char(p));
        assert(read.promotion == mv.promotion);
    }
    assert(move_text(read) =~= t);
    lemma_uci_notation_roundtrip(mv, read, b);
}

} // verus!
