use cozy_chess::Board;
use trinket::chess::{ChessMove, Color, Piece};
use trinket::eval::draw_oracle::oracle_lookup;
use trinket::eval::evaluator::{calculate_phase, evaluate, pawn_is_passed};
use trinket::movegen::boardwrapper::BoardWrapper;
use trinket::movegen::movegen::{MoveGen, SortedMove};
use trinket::movegen::movesorter::{corrhist_index, MoveType, CORRHIST_SIZE};
use trinket::movegen::see::See;

fn fen(s: &str) -> Board {
    Board::from_fen(s, false).unwrap()
}

fn mv(from: u8, to: u8) -> ChessMove {
    ChessMove { from, to, promotion: None }
}

#[test]
fn phase_of_start_and_bare_kings() {
    assert_eq!(calculate_phase(&Board::default()), 0);
    assert_eq!(calculate_phase(&fen("4k3/8/8/8/8/8/8/4K3 w - - 0 1")), 256);
    assert_eq!(calculate_phase(&fen("r3k3/8/8/8/8/8/8/R3K3 w - - 0 1")), 213);
}

#[test]
fn start_position_scores_the_tempo() {
    assert_eq!(evaluate(&Board::default()), 19);
    assert_eq!(evaluate(&fen("rnbqkbnr/pppppppp/8/8/8/8/PPPPPPPP/RNBQKBNR b KQkq - 0 1")), 19);
}

#[test]
fn bare_kings_score_the_endgame_tempo() {
    assert_eq!(evaluate(&fen("4k3/8/8/8/8/8/8/4K3 w - - 0 1")), 20);
    assert_eq!(evaluate(&fen("4k3/8/8/8/8/8/8/4K3 b - - 0 1")), 20);
}

#[test]
fn evaluation_is_from_the_side_to_move() {
    let w = evaluate(&fen("4k3/8/8/8/8/8/8/Q3K3 w - - 0 1"));
    let b = evaluate(&fen("4k3/8/8/8/8/8/8/Q3K3 b - - 0 1"));
    assert!(w > 500);
    assert!(b < -500);
}

#[test]
fn draw_oracle_counts_material() {
    assert!(oracle_lookup(&fen("r3k3/8/8/8/8/8/8/R3K3 w - - 0 1")));
    assert!(oracle_lookup(&fen("4k3/8/8/8/8/8/8/2B1K1N1 w - - 0 1")));
    assert!(!oracle_lookup(&fen("4k3/8/8/8/8/8/8/Q3K3 w - - 0 1")));
    assert!(!oracle_lookup(&fen("4k3/8/8/8/8/8/8/4K3 w - - 0 1")));
    assert!(!oracle_lookup(&Board::default()));
}

#[test]
fn known_draw_is_scaled_down() {
    let e = evaluate(&fen("r3k3/8/8/8/8/8/8/R3K3 w - - 0 1"));
    assert!(e.abs() <= 10);
}

#[test]
fn passed_pawns() {
    let b = fen("4k3/8/8/3P4/8/8/8/4K3 w - - 0 1");
    assert!(pawn_is_passed(&b, Color::White, 35));
    let b = fen("4k3/4p3/8/3P4/8/8/8/4K3 w - - 0 1");
    assert!(!pawn_is_passed(&b, Color::White, 35));
    let b = fen("4k3/8/8/3P4/8/8/3P4/4K3 w - - 0 1");
    assert!(!pawn_is_passed(&b, Color::White, 11));
}

#[test]
fn exchange_values() {
    let mut see = See::new();
    assert_eq!(see.piece_pts(Piece::Pawn), 100);
    assert_eq!(see.piece_pts(Piece::Queen), 1025);
    let b = fen("4k3/8/8/3p4/4P3/8/8/4K3 w - - 0 1");
    assert_eq!(see.see(&b, mv(28, 35)), 100);
    let b = fen("4k3/8/4p3/3p4/4P3/8/8/4K3 w - - 0 1");
    assert_eq!(see.see(&b, mv(28, 35)), 0);
    let b = fen("4k3/8/4p3/3p4/8/2N5/8/4K3 w - - 0 1");
    assert_eq!(see.see(&b, mv(18, 35)), -275);
}

#[test]
fn start_position_has_twenty_moves_in_order() {
    let mut g = MoveGen::new();
    let b = Board::default();
    let moves = g.move_gen(&b, None, 0, false, None);
    assert_eq!(moves.len(), 20);
    for w in moves.windows(2) {
        assert!(w[0].importance >= w[1].importance);
    }
    assert!(moves.iter().all(|m| m.movetype == MoveType::Quiet));
}

#[test]
fn hash_move_comes_first_and_can_be_skipped() {
    let mut g = MoveGen::new();
    let b = Board::default();
    let tt = mv(6, 21);
    let moves = g.move_gen(&b, Some(tt), 0, false, None);
    assert_eq!(moves[0].mv, tt);
    let rest = g.move_gen(&b, Some(tt), 0, true, None);
    assert_eq!(rest.len(), 19);
    assert!(rest.iter().all(|m| m.mv != tt));
}

#[test]
fn captures_come_before_quiet_moves() {
    let mut g = MoveGen::new();
    let b = fen("4k3/8/8/3p4/4P3/8/8/4K3 w - - 0 1");
    let moves = g.move_gen(&b, None, 0, false, None);
    assert_eq!(moves[0].mv, mv(28, 35));
    assert_eq!(moves[0].movetype, MoveType::Loud);
    let caps = g.qmove_gen(&b, None, 0);
    assert_eq!(caps.len(), 1);
    assert_eq!(caps[0].mv, mv(28, 35));
}

#[test]
fn killer_move_is_tried_before_other_quiet_moves() {
    let mut g = MoveGen::new();
    let b = Board::default();
    let killer = mv(1, 18);
    g.sorter.add_killer(killer, 3, &b);
    let moves = g.move_gen(&b, None, 3, false, None);
    assert_eq!(moves[0].mv, killer);
    assert!(moves[0].is_killer);
    let other_ply = g.move_gen(&b, None, 4, false, None);
    assert!(!other_ply[0].is_killer);
}

#[test]
fn history_raises_a_quiet_move() {
    let mut g = MoveGen::new();
    let b = Board::default();
    let good = mv(12, 28);
    g.sorter.add_history(good, 5, &b);
    let moves = g.move_gen(&b, None, 0, false, None);
    assert_eq!(moves[0].mv, good);
    assert!(moves[0].history > 0);
}

#[test]
fn incremental_hashes_match_a_fresh_board() {
    let mut w = BoardWrapper::new();
    let mut sm = SortedMove::new(mv(12, 28), 0, MoveType::Quiet);
    w.play_unchecked(&mut sm);
    let mut fresh = BoardWrapper::new();
    assert!(fresh.try_update_fen("rnbqkbnr/pppppppp/8/8/4P3/8/PPPP1PPP/RNBQKBNR b KQkq - 0 1"));
    assert_eq!(w.pawn_hash, fresh.pawn_hash);
    assert_eq!(w.non_pawn_hash, fresh.non_pawn_hash);
    assert_eq!(w.material_hash, fresh.material_hash);
}

#[test]
fn incremental_hashes_after_a_capture() {
    let mut w = BoardWrapper::new();
    assert!(w.try_update_fen("4k3/8/8/3n4/4P3/8/8/4K3 w - - 0 1"));
    let mut sm = SortedMove::new(mv(28, 35), 0, MoveType::Loud);
    w.play_unchecked(&mut sm);
    let mut fresh = BoardWrapper::new();
    assert!(fresh.try_update_fen("4k3/8/8/3P4/8/8/8/4K3 b - - 0 1"));
    assert_eq!(w.pawn_hash, fresh.pawn_hash);
    assert_eq!(w.non_pawn_hash, fresh.non_pawn_hash);
    assert_eq!(w.material_hash, fresh.material_hash);
}

#[test]
fn incremental_hashes_after_a_promotion() {
    let mut w = BoardWrapper::new();
    assert!(w.try_update_fen("4k3/1P6/8/8/8/8/8/4K3 w - - 0 1"));
    let promo = ChessMove { from: 49, to: 57, promotion: Some(Piece::Queen) };
    let mut sm = SortedMove::new(promo, 0, MoveType::Quiet);
    w.play_unchecked(&mut sm);
    let mut fresh = BoardWrapper::new();
    assert!(fresh.try_update_fen("1Q2k3/8/8/8/8/8/8/4K3 b - - 0 1"));
    assert_eq!(w.pawn_hash, fresh.pawn_hash);
    assert_eq!(w.non_pawn_hash, fresh.non_pawn_hash);
    assert_eq!(w.material_hash, fresh.material_hash);
}

#[test]
fn refused_fen_leaves_the_board() {
    let mut w = BoardWrapper::new();
    let before = w.pawn_hash;
    assert!(!w.try_update_fen("not a position"));
    assert_eq!(w.pawn_hash, before);
    assert_eq!(w.board, Board::default());
    assert!(w.try_update_fen("  4k3/8/8/8/8/8/8/4K3 w - - 0 1  "));
}

#[test]
fn null_move_keeps_the_hashes() {
    let w = BoardWrapper::new();
    let n = w.null_move();
    assert_eq!(n.pawn_hash, w.pawn_hash);
    assert_eq!(n.board.side_to_move(), cozy_chess::Color::Black);
    let c = w.clone();
    assert_eq!(c.board, w.board);
    assert_eq!(c.material_hash, w.material_hash);
}

#[test]
fn correction_history_slots() {
    assert_eq!(corrhist_index(16384 * 7 + 5), 5);
    assert!(corrhist_index(u64::MAX) < CORRHIST_SIZE);
}

#[test]
fn incremental_hashes_after_en_passant() {
    let mut w = BoardWrapper::new();
    assert!(w.try_update_fen("4k3/8/8/3pP3/8/8/8/4K3 w - d6 0 1"));
    let mut sm = SortedMove::new(mv(36, 43), 0, MoveType::Quiet);
    w.play_unchecked(&mut sm);
    let mut fresh = BoardWrapper::new();
    assert!(fresh.try_update_fen("4k3/8/3P4/8/8/8/8/4K3 b - - 0 1"));
    assert_eq!(w.pawn_hash, fresh.pawn_hash);
    assert_eq!(w.non_pawn_hash, fresh.non_pawn_hash);
    assert_eq!(w.material_hash, fresh.material_hash);
}

#[test]
fn pawn_hash_keeps_a_pawn_taken_by_a_capture() {
    let mut w = BoardWrapper::new();
    assert!(w.try_update_fen("4k3/8/8/3p4/4P3/8/8/4K3 w - - 0 1"));
    let mut sm = SortedMove::new(mv(28, 35), 0, MoveType::Loud);
    w.play_unchecked(&mut sm);
    let mut fresh = BoardWrapper::new();
    assert!(fresh.try_update_fen("4k3/8/8/3P4/8/8/8/4K3 b - - 0 1"));
    assert_ne!(w.pawn_hash, fresh.pawn_hash);
    assert_eq!(w.non_pawn_hash, fresh.non_pawn_hash);
    assert_eq!(w.material_hash, fresh.material_hash);
}

#[test]
fn knight_moves_keep_the_hashes() {
    let mut w = BoardWrapper::new();
    let mut sm = SortedMove::new(mv(6, 21), 0, MoveType::Quiet);
    w.play_unchecked(&mut sm);
    let mut fresh = BoardWrapper::new();
    assert!(fresh.try_update_fen("rnbqkbnr/pppppppp/8/8/8/5N2/PPPPPPPP/RNBQKB1R b KQkq - 1 1"));
    assert_eq!(w.pawn_hash, fresh.pawn_hash);
    assert_eq!(w.non_pawn_hash, fresh.non_pawn_hash);
    assert_eq!(w.material_hash, fresh.material_hash);
}

#[test]
fn move_gen_hands_out_every_legal_move_once() {
    let b = fen("r3k2r/p1ppqpb1/bn2pnp1/3PN3/1p2P3/2N2Q1p/PPPBBPPP/R3K2R w KQkq - 0 1");
    let mut expected: Vec<(u8, u8, Option<usize>)> = Vec::new();
    b.generate_moves(|moves| {
        for m in moves {
            expected.push((m.from as u8, m.to as u8, m.promotion.map(|p| p as usize)));
        }
        false
    });
    let mut g = MoveGen::new();
    let moves = g.move_gen(&b, None, 0, false, None);
    let mut got: Vec<(u8, u8, Option<usize>)> =
        moves.iter().map(|m| (m.mv.from, m.mv.to, m.mv.promotion.map(|p| p.index()))).collect();
    for w in moves.windows(2) {
        assert!(w[0].importance >= w[1].importance);
    }
    expected.sort();
    got.sort();
    assert_eq!(expected.len(), 48);
    assert_eq!(got, expected);
    let caps = g.qmove_gen(&b, None, 0);
    assert_eq!(caps.len(), 8);
    assert!(caps.iter().all(|m| m.movetype == MoveType::Loud));
}
