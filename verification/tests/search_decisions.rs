use cozy_chess::Board;
use trinket::chess::{ChessMove, Color, Piece};
use trinket::eval::score::Eval;
use trinket::search::search_master::{
    hard_timeout, is_main_thread, side_clock, soft_timeout, Deepening, TimeControl,
};
use trinket::search::searcher::{
    corrhist_applies, get_nmp_reduction_amount, history_prunes, iir_depth, is_repetition,
    late_move_reduction, lmp_prunes, mate_distance_cutoff, mate_in, rfp_prunes, spp_applies, step,
    table_move_first, terminal_eval, tt_bound_cutoff, tt_search_cutoff, EvalStack, Step,
};
use trinket::movegen::movegen::SortedMove;
use trinket::movegen::movesorter::MoveType;
use trinket::search::tt::{NodeKind, TTEntry};

#[test]
fn mate_distance_prunes_only_with_a_bound() {
    assert_eq!(mate_distance_cutoff(29995, 10), Some(Eval::new(29990, true)));
    assert_eq!(mate_distance_cutoff(29989, 10), None);
    assert_eq!(mate_distance_cutoff(-i32::MAX, 10), None);
}

#[test]
fn finished_games_score() {
    let mated = Board::from_fen("rnb1kbnr/pppp1ppp/8/4p3/6Pq/5P2/PPPPP2P/RNBQKBNR w KQkq - 1 3", false).unwrap();
    assert_eq!(terminal_eval(&mated, 3), Some(Eval::new(-29997, true)));
    let stalemate = Board::from_fen("7k/5Q2/6K1/8/8/8/8/8 b - - 0 1", false).unwrap();
    assert_eq!(terminal_eval(&stalemate, 3), Some(Eval::new(0, false)));
    assert_eq!(terminal_eval(&Board::default(), 3), None);
}

#[test]
fn repetition_ignores_current_position() {
    let past = vec![5u64, 7, 9];
    assert!(is_repetition(5, &past));
    assert!(is_repetition(7, &past));
    assert!(!is_repetition(9, &past));
    assert!(!is_repetition(1, &past));
    assert!(!is_repetition(1, &Vec::new()));
}

fn entry(eval: i32, depth: i32, node_kind: NodeKind) -> TTEntry {
    TTEntry {
        best_move: Some(ChessMove { from: 12, to: 28, promotion: None }),
        eval,
        depth,
        node_kind,
    }
}

#[test]
fn table_bounds_settle_nodes() {
    assert_eq!(tt_bound_cutoff(&entry(50, 3, NodeKind::Exact), 0, 10), Some(Eval::new(50, false)));
    assert_eq!(tt_bound_cutoff(&entry(-5, 3, NodeKind::UpperBound), 0, 10), Some(Eval::new(-5, false)));
    assert_eq!(tt_bound_cutoff(&entry(5, 3, NodeKind::UpperBound), 0, 10), None);
    assert_eq!(tt_bound_cutoff(&entry(10, 3, NodeKind::LowerBound), 0, 10), Some(Eval::new(10, false)));
    assert_eq!(tt_bound_cutoff(&entry(9, 3, NodeKind::LowerBound), 0, 10), None);
    assert_eq!(tt_bound_cutoff(&entry(50, 3, NodeKind::Null), 0, 10), None);
    assert_eq!(tt_bound_cutoff(&entry(30001, 3, NodeKind::Exact), 0, 10), Some(Eval::new(30001, true)));
}

#[test]
fn table_cutoff_needs_depth() {
    assert_eq!(tt_search_cutoff(&entry(50, 3, NodeKind::Exact), 4, 0, 10), None);
    assert_eq!(tt_search_cutoff(&entry(50, 4, NodeKind::Exact), 4, 0, 10), Some(Eval::new(50, false)));
}

#[test]
fn internal_iterative_reduction() {
    assert_eq!(iir_depth(10, 0), 8);
    assert_eq!(iir_depth(25, 4), 22);
    assert_eq!(iir_depth(1, 8), 1);
    assert_eq!(iir_depth(3, 8), 3);
    assert_eq!(iir_depth(4, 8), 3);
}

#[test]
fn eval_stack_improving() {
    let mut s = EvalStack::new();
    s.set(0, 10);
    s.set(2, 20);
    s.set(3, -200);
    s.set(1, -50);
    assert!(s.improving(2));
    assert!(!s.improving(3));
    assert!(!s.improving(1));
    assert!(s.nmp_improving(1));
    assert!(s.nmp_improving(2));
    assert!(!s.nmp_improving(3));
    s.set(3, -149);
    assert!(s.nmp_improving(3));
}

#[test]
fn reverse_futility_margin() {
    assert!(rfp_prunes(3, false, 500, true, 260));
    assert!(!rfp_prunes(3, false, 500, true, 261));
    assert!(rfp_prunes(3, false, 500, false, 230));
    assert!(!rfp_prunes(3, false, 500, false, 231));
    assert!(!rfp_prunes(3, true, 500, true, 0));
    assert!(!rfp_prunes(7, false, 5000, true, 0));
}

#[test]
fn null_move_reduction_formula() {
    assert_eq!(get_nmp_reduction_amount(9, 300), 7);
    assert_eq!(get_nmp_reduction_amount(9, -7), 5);
    assert_eq!(get_nmp_reduction_amount(9, -300), 3);
    assert_eq!(get_nmp_reduction_amount(1, 0), 2);
}

#[test]
fn late_move_pruning_threshold() {
    assert!(!lmp_prunes(false, 2, true, 0, 10, 30, true, false));
    assert!(lmp_prunes(false, 2, true, 0, 11, 30, true, false));
    assert!(lmp_prunes(false, 2, true, 0, 8, 30, false, false));
    assert!(!lmp_prunes(true, 2, true, 0, 50, 30, true, false));
    assert!(!lmp_prunes(false, 4, true, 0, 50, 30, true, false));
    assert!(!lmp_prunes(false, 2, false, 0, 50, 30, true, false));
    assert!(!lmp_prunes(false, 2, true, -30000, 50, 30, true, false));
    assert!(!lmp_prunes(false, 2, true, 0, 50, 30, true, true));
}

#[test]
fn history_pruning_threshold() {
    assert!(history_prunes(5, -2501));
    assert!(!history_prunes(5, -2500));
    assert!(!history_prunes(4, -100000));
}

#[test]
fn late_move_reduction_terms() {
    assert_eq!(late_move_reduction(0, 3, false, true, false, 2, None, 5, None, false, false, false), 2);
    assert_eq!(late_move_reduction(3000, 3, false, true, false, 3, None, 5, None, false, false, false), 1);
    assert_eq!(late_move_reduction(-3000, 1, false, true, false, 3, None, 5, None, false, false, false), 2);
    assert_eq!(late_move_reduction(0, 3, true, false, true, 3, None, 5, None, false, false, false), 0);
    assert_eq!(late_move_reduction(0, 3, true, true, true, 3, None, 5, None, false, false, false), 2);
    assert_eq!(late_move_reduction(0, 1, false, true, false, 3, Some(Piece::Knight), 4, None, false, false, false), 1);
    assert_eq!(late_move_reduction(0, 1, false, true, false, 3, Some(Piece::Queen), 4, None, false, false, false), 0);
    assert_eq!(late_move_reduction(0, 1, true, true, false, 3, None, 4, Some(false), false, false, false), 0);
    assert_eq!(late_move_reduction(0, 3, true, true, false, 3, None, 4, Some(false), false, false, false), 3);
    assert_eq!(late_move_reduction(0, 3, true, true, false, 3, None, 4, Some(true), false, false, false), 1);
    assert_eq!(late_move_reduction(0, 3, false, true, false, 3, None, 5, None, true, false, false), 0);
    assert_eq!(late_move_reduction(0, 3, false, true, false, 3, None, 5, None, false, true, false), 0);
    assert_eq!(late_move_reduction(0, 3, false, true, false, 3, None, 5, None, false, false, true), 0);
}

#[test]
fn pruning_after_a_quiet_failure() {
    assert!(spp_applies(false, 3, false, false, false, true, false));
    assert!(!spp_applies(false, 4, false, false, false, true, false));
    assert!(!spp_applies(true, 3, false, false, false, true, false));
    assert!(!spp_applies(false, 3, false, false, false, true, true));
}

#[test]
fn steps_of_a_node() {
    assert_eq!(step(10, 20, 30, 5), Step::Worse);
    assert_eq!(step(10, 20, 30, 10), Step::Worse);
    assert_eq!(step(10, 20, 30, 15), Step::Better);
    assert_eq!(step(10, 20, 30, 20), Step::Better);
    assert_eq!(step(10, 20, 30, 25), Step::Raised);
    assert_eq!(step(10, 20, 30, 30), Step::Cutoff);
    assert_eq!(step(i32::MIN, 20, 30, -100), Step::Better);
}

#[test]
fn correction_history_condition() {
    assert!(corrhist_applies(Some(true), NodeKind::UpperBound, 10, 20));
    assert!(!corrhist_applies(Some(true), NodeKind::UpperBound, 20, 20));
    assert!(corrhist_applies(Some(true), NodeKind::LowerBound, 30, 20));
    assert!(!corrhist_applies(Some(false), NodeKind::LowerBound, 30, 20));
    assert!(!corrhist_applies(None, NodeKind::LowerBound, 30, 20));
    assert!(!corrhist_applies(Some(true), NodeKind::Exact, 30, 20));
}

#[test]
fn mate_scores_count_moves() {
    assert_eq!(mate_in(29995), 3);
    assert_eq!(mate_in(29999), 1);
    assert_eq!(mate_in(-29996), -2);
    assert_eq!(mate_in(-30000), 0);
}

#[test]
fn time_control_defaults() {
    let tc = TimeControl::new();
    assert_eq!(tc.depth, i32::MAX);
    assert_eq!(tc.wtime, i64::MAX);
    assert_eq!(tc.btime, i64::MAX);
    assert_eq!(tc.winc, 0);
    assert_eq!(tc.binc, 0);
    assert_eq!(tc.movetime, None);
    assert_eq!(tc.movestogo, None);
}

#[test]
fn clocks_of_each_side() {
    let mut tc = TimeControl::new();
    tc.wtime = 1000;
    tc.btime = 2000;
    tc.winc = 10;
    tc.binc = -1;
    assert_eq!(side_clock(&tc, Color::White), (1000, 10));
    assert_eq!(side_clock(&tc, Color::Black), (2000, u64::MAX));
}

#[test]
fn soft_time_limit() {
    assert_eq!(soft_timeout(10000, 100, None), Some(404));
    assert_eq!(soft_timeout(10000, 100, Some(40)), Some(1683));
    assert_eq!(soft_timeout(u64::MAX, 0, None), None);
}

#[test]
fn hard_time_limit() {
    assert_eq!(hard_timeout(10000, 100, None, None), 5050);
    assert_eq!(hard_timeout(10000, 100, Some(300), None), 300);
    assert_eq!(hard_timeout(10000, 100, None, Some(20)), 10100);
    assert_eq!(hard_timeout(10000, 100, None, Some(15)), 5050);
}

#[test]
fn deepening_takes_scores_inside_the_window() {
    let mut d = Deepening::new();
    assert_eq!(d.bounds(), (-i32::MAX, i32::MAX));
    assert!(d.searching(5));
    assert!(d.record(5));
    assert_eq!(d, Deepening { depth_index: 1, last_result: 5, window: 10 });
    assert!(!d.record(30));
    assert_eq!(d, Deepening { depth_index: 1, last_result: 5, window: 20 });
    assert!(!d.record(-15));
    assert_eq!(d.window, 40);
    assert!(d.record(-15));
    assert_eq!(d, Deepening { depth_index: 2, last_result: -15, window: 10 });
    assert!(d.record(-10));
    assert_eq!(d.bounds(), (-20, 0));
    assert!(!d.searching(3));
}

#[test]
fn deepening_stops_at_250() {
    let d = Deepening { depth_index: 250, last_result: 0, window: 10 };
    assert!(!d.searching(i32::MAX));
}

#[test]
fn main_thread_choice() {
    assert!(is_main_thread(5, 4, 0, 100, 4));
    assert!(is_main_thread(5, 5, 101, 100, 4));
    assert!(!is_main_thread(5, 5, 100, 100, 4));
    assert!(is_main_thread(3, 5, 0, 100, 1));
}

#[test]
fn table_move_is_tried_first_when_legal() {
    let b = Board::default();
    let e2e4 = ChessMove { from: 12, to: 28, promotion: None };
    assert_eq!(
        table_move_first(&b, Some(entry(0, 1, NodeKind::Exact))),
        Some(SortedMove::new(e2e4, 0, MoveType::Quiet))
    );
    let illegal = TTEntry { best_move: Some(ChessMove { from: 12, to: 36, promotion: None }), ..entry(0, 1, NodeKind::Exact) };
    assert_eq!(table_move_first(&b, Some(illegal)), None);
    let no_move = TTEntry { best_move: None, ..entry(0, 1, NodeKind::Exact) };
    assert_eq!(table_move_first(&b, Some(no_move)), None);
    assert_eq!(table_move_first(&b, None), None);
    let c = Board::from_fen("4k3/8/8/3p4/4P3/8/8/4K3 w - - 0 1", false).unwrap();
    let capture = TTEntry { best_move: Some(ChessMove { from: 28, to: 35, promotion: None }), ..entry(0, 1, NodeKind::Exact) };
    assert_eq!(table_move_first(&c, Some(capture)).map(|sm| sm.movetype), Some(MoveType::Loud));
}
