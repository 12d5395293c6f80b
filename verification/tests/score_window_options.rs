use trinket::eval::score::{Eval, Score, CHECKMATE_BASE, CHECKMATE_DEFINITE, DRAW, TOTAL_PHASE};
use trinket::search::search_options::{Options, SearchOptions};
use trinket::search::window::{Window, ALPHA_BOUND, BETA_BOUND};

#[test]
fn score_tapers_between_phases() {
    let s = Score::new(100, 200);
    assert_eq!(s.eval(0), 100);
    assert_eq!(s.eval(TOTAL_PHASE), 200);
    assert_eq!(s.eval(128), 150);
    assert_eq!(s.eval(64), 125);
}

#[test]
fn score_rounds_toward_zero() {
    assert_eq!(Score::new(-100, 0).eval(1), -99);
    assert_eq!(Score::new(100, 0).eval(1), 99);
}

#[test]
fn score_constant_weight_is_constant() {
    let s = Score::new(37, 37);
    for phase in [0, 1, 100, 200, 256] {
        assert_eq!(s.eval(phase), 37);
    }
}

#[test]
fn eval_new_keeps_fields() {
    let e = Eval::new(-250, true);
    assert_eq!(e.score, -250);
    assert!(e.mate);
    assert_eq!(DRAW, 0);
    assert_eq!(CHECKMATE_BASE, 30000);
    assert_eq!(CHECKMATE_DEFINITE, 29500);
}

#[test]
fn window_starts_widest() {
    let w = Window::new();
    assert_eq!(w.alpha, ALPHA_BOUND);
    assert_eq!(w.beta, BETA_BOUND);
    assert_eq!(w.alpha, -i32::MAX);
    assert!(w.is_pv());
    assert!(w.cutoff());
}

#[test]
fn window_flip_twice_is_identity() {
    let mut w = Window::new();
    w.set_alpha(-30);
    w.set_beta(45);
    let f = w.flip();
    assert_eq!(f.alpha, -45);
    assert_eq!(f.beta, 30);
    assert_eq!(f.flip(), w);
    assert_eq!(f.is_pv(), w.is_pv());
    assert_eq!(w.is_pv_children(10), f.is_pv_children(-10));
}

#[test]
fn null_window_holds_nothing() {
    let w = Window::new().create_null(7);
    assert_eq!(w.alpha, 7);
    assert_eq!(w.beta, 8);
    assert!(!w.is_pv());
    assert!(!w.is_pv_children(7));
    assert!(!w.is_pv_children(8));
    assert!(w.can_raise_alpha(8));
    assert!(!w.can_raise_alpha(7));
}

#[test]
fn window_cutoff_when_beta_below_alpha() {
    let mut w = Window::new();
    w.set_alpha(10);
    w.set_beta(5);
    assert!(!w.cutoff());
    w.set_beta(10);
    assert!(w.cutoff());
}

#[test]
fn options_defaults() {
    let o = SearchOptions::new();
    assert_eq!(o.aspiration_window, 38);
    assert_eq!(o.max_depth_rfp, 5);
    assert_eq!(o.multiplier_rfp, 141);
    assert_eq!(o.history_reduction, 1);
    assert_eq!(o.lmp_depth_max, 10);
}

#[test]
fn options_get_by_name() {
    assert_eq!(SearchOptions::get("AspirationWindow", 12), Options::AspirationWindow(12));
    assert_eq!(SearchOptions::get("HistoryReduction", -3), Options::HistoryReduction(-3));
    assert_eq!(SearchOptions::get("NmpXShift", 4), Options::NmpXShift(4));
}

#[test]
fn options_change_sets_one_field() {
    let mut o = SearchOptions::new();
    let before = o;
    o.change(SearchOptions::get("MultiplierRfp", 99));
    assert_eq!(o.multiplier_rfp, 99);
    assert_eq!(o.aspiration_window, before.aspiration_window);
    assert_eq!(o.history_threshold, before.history_threshold);
    o.change(Options::LmpMultiplier(1));
    assert_eq!(o.lmp_multiplier, 1);
    assert_eq!(o.multiplier_rfp, 99);
}
