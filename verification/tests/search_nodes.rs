use cozy_chess::{Board, Piece as CozyPiece, Square};
use trinket::chess::ChessMove;
use trinket::eval::evaluator::evaluate;
use trinket::eval::score::Eval;
use trinket::movegen::boardwrapper::BoardWrapper;
use trinket::movegen::movegen::{MoveGen, SortedMove};
use trinket::movegen::movesorter::MoveType;
use trinket::search::search_master::TimeControl;
use trinket::search::searcher::{get_lmr_reduction_amount, EvalStack, LmrTable, SearchContext, Searcher};
use trinket::search::tt::TT;

struct Plain {
    stop: bool,
    recorded: u32,
}

impl SearchContext for Plain {
    fn aborted(&mut self) -> bool {
        self.stop
    }

    fn correction(&mut self, _bw: &BoardWrapper) -> i32 {
        0
    }

    fn record_correction(&mut self, _bw: &BoardWrapper, _depth: i32, _best: i32, _static_eval: i32) {
        self.recorded += 1;
    }
}

fn searcher(depth: i32) -> Searcher {
    let mut tc = TimeControl::new();
    tc.depth = depth;
    Searcher {
        time_control: tc,
        movegen: MoveGen::new(),
        nodes: 0,
        evals: EvalStack::new(),
        lmr: LmrTable { table: vec![1; 4096] },
    }
}

fn wrapper(fen: &str) -> BoardWrapper {
    let mut w = BoardWrapper::new();
    w.update_fen(fen);
    w
}

fn mv(from: u8, to: u8) -> ChessMove {
    ChessMove { from, to, promotion: None }
}

#[test]
fn search_finds_the_back_rank_mate() {
    let w = wrapper("6k1/5ppp/8/8/8/8/8/R5K1 w - - 0 1");
    let mut s = searcher(1);
    let mut tt = TT::new();
    let mut ctx = Plain { stop: false, recorded: 0 };
    let mut past = vec![w.board.hash()];
    let r = s.search(&mut ctx, &mut tt, &w, 1, 0, -i32::MAX, i32::MAX, &mut past, None);
    assert_eq!(r, Some((Some(mv(0, 56)), Eval { score: 29999, mate: true })));
    assert_eq!(past, vec![w.board.hash()]);
    assert!(s.nodes > 1);
    let stored = tt.find(&w.board, 0).unwrap();
    assert_eq!(stored.best_move, Some(mv(0, 56)));
    assert_eq!(stored.eval, 29999);
}

#[test]
fn search_of_a_mated_side() {
    let w = wrapper("R5k1/5ppp/8/8/8/8/8/6K1 b - - 0 1");
    let mut s = searcher(3);
    let mut tt = TT::new();
    let mut ctx = Plain { stop: false, recorded: 0 };
    let mut past = Vec::new();
    let r = s.search(&mut ctx, &mut tt, &w, 3, 0, -i32::MAX, i32::MAX, &mut past, None);
    assert_eq!(r, Some((None, Eval { score: -30000, mate: true })));
}

#[test]
fn stalemate_is_a_draw() {
    let w = wrapper("7k/5Q2/6K1/8/8/8/8/8 b - - 0 1");
    let mut s = searcher(3);
    let mut tt = TT::new();
    let mut ctx = Plain { stop: false, recorded: 0 };
    let mut past = Vec::new();
    let r = s.search(&mut ctx, &mut tt, &w, 3, 2, -i32::MAX, i32::MAX, &mut past, None);
    assert_eq!(r, Some((None, Eval { score: 0, mate: false })));
}

#[test]
fn repeated_position_is_a_draw() {
    let w = wrapper("4k3/8/8/8/8/8/8/R3K3 w - - 0 1");
    let h = w.board.hash();
    let mut s = searcher(3);
    let mut tt = TT::new();
    let mut ctx = Plain { stop: false, recorded: 0 };
    let mut past = vec![h, 7, h];
    let r = s.search(&mut ctx, &mut tt, &w, 3, 1, -i32::MAX, i32::MAX, &mut past, None);
    assert_eq!(r, Some((None, Eval { score: 0, mate: false })));
    assert_eq!(past, vec![h, 7, h]);
}

#[test]
fn mate_distance_pruning_cuts_a_lost_cause() {
    let w = wrapper("4k3/8/8/8/8/8/8/R3K3 w - - 0 1");
    let mut s = searcher(3);
    let mut tt = TT::new();
    let mut ctx = Plain { stop: false, recorded: 0 };
    let mut past = Vec::new();
    let r = s.search(&mut ctx, &mut tt, &w, 3, 4, 29996, 29998, &mut past, None);
    assert_eq!(r, Some((None, Eval { score: 29996, mate: true })));
}

#[test]
fn a_stopped_search_gives_nothing() {
    let w = wrapper("4k3/8/8/8/8/8/8/R3K3 w - - 0 1");
    let mut s = searcher(5);
    let mut tt = TT::new();
    let mut ctx = Plain { stop: true, recorded: 0 };
    let mut past = Vec::new();
    assert_eq!(s.search(&mut ctx, &mut tt, &w, 3, 0, -i32::MAX, i32::MAX, &mut past, None), None);
    assert_eq!(s.qsearch(&mut ctx, &mut tt, &w, -i32::MAX, i32::MAX, 0), None);
    let mut one = searcher(1);
    assert!(one.search(&mut ctx, &mut tt, &w, 1, 0, -i32::MAX, i32::MAX, &mut past, None).is_some());
}

#[test]
fn quiescence_takes_the_hanging_queen() {
    let w = wrapper("4k3/8/8/3q4/8/8/8/3RK3 w - - 0 1");
    let stand_pat = evaluate(&w.board);
    let mut s = searcher(3);
    let mut tt = TT::new();
    let mut ctx = Plain { stop: false, recorded: 0 };
    let (best, eval) = s.qsearch(&mut ctx, &mut tt, &w, -i32::MAX, i32::MAX, 0).unwrap();
    assert_eq!(best, Some(mv(3, 35)));
    assert!(eval.score > stand_pat);
}

#[test]
fn quiescence_fails_hard_at_beta() {
    let w = wrapper("4k3/8/8/8/8/8/8/QQQQK3 w - - 0 1");
    let mut s = searcher(3);
    let mut tt = TT::new();
    let mut ctx = Plain { stop: false, recorded: 0 };
    let r = s.qsearch(&mut ctx, &mut tt, &w, -100, 50, 0);
    assert_eq!(r, Some((None, Eval { score: 50, mate: false })));
}

#[test]
fn deeper_search_keeps_the_line_and_finds_a_move() {
    let w = wrapper("r1bqkbnr/pppp1ppp/2n5/4p3/4P3/5N2/PPPP1PPP/RNBQKB1R w KQkq - 2 3");
    let mut s = searcher(4);
    let mut tt = TT::new();
    let mut ctx = Plain { stop: false, recorded: 0 };
    let mut past = vec![w.board.hash()];
    let (best, _) = s.search(&mut ctx, &mut tt, &w, 4, 0, -i32::MAX, i32::MAX, &mut past, None).unwrap();
    let m = best.unwrap();
    let legal = w.board.is_legal(cozy_chess::Move {
        from: Square::index(m.from as usize),
        to: Square::index(m.to as usize),
        promotion: None,
    });
    assert!(legal);
    assert_eq!(past, vec![w.board.hash()]);
}

#[test]
fn reduction_table_caps_its_indices() {
    let table: Vec<u8> = (0..4096).map(|i| (i % 251) as u8).collect();
    let lmr = LmrTable { table };
    assert_eq!(get_lmr_reduction_amount(&lmr, 2, 3), (2 * 64 + 3) as u8);
    assert_eq!(get_lmr_reduction_amount(&lmr, 70, 3), ((63 * 64 + 3) % 251) as u8);
    assert_eq!(get_lmr_reduction_amount(&lmr, -1, 100), ((63 * 64 + 63) % 251) as u8);
}

#[test]
fn castling_marked_loud_is_played() {
    let mut w = wrapper("r3k2r/8/8/8/8/8/8/R3K2R w KQkq - 0 1");
    let mut sm = SortedMove::new(mv(4, 7), 0, MoveType::Loud);
    w.play_unchecked(&mut sm);
    assert_eq!(w.board.piece_on(Square::G1), Some(CozyPiece::King));
    assert_eq!(w.board.piece_on(Square::F1), Some(CozyPiece::Rook));
}

#[test]
fn fresh_board_wrapper_from_fen() {
    let w = wrapper("  4k3/8/8/8/8/8/8/4K3 b - - 0 1 ");
    let expected: Board = "4k3/8/8/8/8/8/8/4K3 b - - 0 1".parse().unwrap();
    assert_eq!(w.board, expected);
}

#[test]
fn a_stopped_node_changes_nothing() {
    let w = wrapper("4k3/8/8/8/8/8/8/R3K3 w - - 0 1");
    let mut s = searcher(5);
    let mut tt = TT::new();
    let mut ctx = Plain { stop: false, recorded: 0 };
    let mut past = vec![w.board.hash()];
    assert_eq!(s.search_node(true, &mut ctx, &mut tt, &w, 3, 0, -i32::MAX, i32::MAX, &mut past, None), None);
    assert_eq!(s.nodes, 0);
    assert_eq!(s.qsearch_node(true, &mut ctx, &mut tt, &w, -i32::MAX, i32::MAX, 0), None);
    assert_eq!(s.nodes, 0);
    assert_eq!(tt.find(&w.board, 0), None);
}

#[test]
fn a_mate_distance_cut_counts_one_node() {
    let w = wrapper("4k3/8/8/8/8/8/8/R3K3 w - - 0 1");
    let mut s = searcher(5);
    let mut tt = TT::new();
    let mut ctx = Plain { stop: false, recorded: 0 };
    let mut past = Vec::new();
    let r = s.search_node(false, &mut ctx, &mut tt, &w, 3, 2, 29998, 29999, &mut past, None);
    assert_eq!(r, Some((None, Eval { score: 29998, mate: true })));
    assert_eq!(s.nodes, 1);
}

#[test]
fn stand_pat_fails_hard_at_beta() {
    let w = wrapper("4k3/8/8/3q4/8/8/8/3RK3 w - - 0 1");
    let mut s = searcher(3);
    let mut tt = TT::new();
    let mut ctx = Plain { stop: false, recorded: 0 };
    assert_eq!(
        s.qsearch_stand(&mut ctx, &mut tt, &w, 700, -100, 600, 0),
        Some((None, Eval { score: 600, mate: false }))
    );
    assert_eq!(tt.find(&w.board, 0), None);
}

#[test]
fn stand_pat_stands_without_captures() {
    let w = wrapper("4k3/8/8/8/8/8/8/R3K3 w - - 0 1");
    let mut s = searcher(3);
    let mut tt = TT::new();
    let mut ctx = Plain { stop: false, recorded: 0 };
    assert_eq!(
        s.qsearch_stand(&mut ctx, &mut tt, &w, 123, -100, 600, 0),
        Some((None, Eval { score: 123, mate: false }))
    );
}

#[test]
fn quiescence_skips_a_losing_capture() {
    // The queen could take a pawn defended by a pawn: it loses material, so it
    // is not searched and the stand pat stands.
    let w = wrapper("4k3/8/2p5/3p4/8/8/8/3QK3 w - - 0 1");
    let mut s = searcher(3);
    let mut tt = TT::new();
    let mut ctx = Plain { stop: false, recorded: 0 };
    assert_eq!(
        s.qsearch_stand(&mut ctx, &mut tt, &w, 10, -100, 600, 0),
        Some((None, Eval { score: 10, mate: false }))
    );
}

#[test]
fn move_text_plays_legal_moves_only() {
    let mut w = BoardWrapper::new();
    let before = w.board.clone();
    assert!(!w.play_move_text("e2e5"));
    assert!(!w.play_move_text("zz"));
    assert!(!w.play_move_text("e2"));
    assert_eq!(w.board, before);
    let pawn_hash = w.pawn_hash;
    let material = w.material_hash;
    let non_pawn = w.non_pawn_hash;
    assert!(w.play_move_text("e2e4"));
    let expected: Board = "rnbqkbnr/pppppppp/8/8/4P3/8/PPPP1PPP/RNBQKBNR b KQkq e3 0 1".parse().unwrap();
    assert_eq!(w.board, expected);
    assert_ne!(w.pawn_hash, pawn_hash);
    assert_eq!(w.material_hash, material);
    assert_eq!(w.non_pawn_hash, non_pawn);
    let mut fresh = BoardWrapper::new();
    assert!(fresh.try_update_fen("rnbqkbnr/pppppppp/8/8/4P3/8/PPPP1PPP/RNBQKBNR b KQkq - 0 1"));
    assert_eq!(w.pawn_hash, fresh.pawn_hash);
}

#[test]
fn move_text_castles_in_uci_notation() {
    let mut w = wrapper("r3k2r/8/8/8/8/8/8/R3K2R w KQkq - 0 1");
    assert!(w.play_move_text("e1g1"));
    assert_eq!(w.board.piece_on(Square::G1), Some(CozyPiece::King));
    assert_eq!(w.board.piece_on(Square::F1), Some(CozyPiece::Rook));
    assert!(w.play_move_text("e8c8"));
    assert_eq!(w.board.piece_on(Square::C8), Some(CozyPiece::King));
    assert_eq!(w.board.piece_on(Square::D8), Some(CozyPiece::Rook));
}
