//! Search results and tapered evaluation weights.

use vstd::prelude::*;

verus! {

/// Rust's `/` on signed integers, which rounds toward zero.
pub open spec fn trunc_div(a: int, b: int) -> int
    recommends
        b != 0,
{
    if a >= 0 {
        a / b
    } else {
        -((-a) / b)
    }
}

/// The phase at which the endgame weight counts in full.
pub const TOTAL_PHASE: i32 = 256;

/// The score of a draw.
pub const DRAW: i32 = 0;

/// The score of a checkmate at the root; mates further away score less.
pub const CHECKMATE_BASE: i32 = 30000;

/// Scores beyond this (in absolute value) are mate scores.
pub const CHECKMATE_DEFINITE: i32 = 29500;

/// A weight interpolated between middlegame `mg` and endgame `eg` by the phase.
pub open spec fn tapered(mg: int, eg: int, phase: int) -> int {
    trunc_div(mg * (256 - phase) + eg * phase, 256)
}

/// The phase range for which `tapered` of weights up to `WEIGHT_BOUND` stays in range.
pub open spec fn phase_in_range(phase: int) -> bool {
    -6000 <= phase <= 300
}

pub open spec fn weight_in_range(w: int) -> bool {
    -1100 <= w <= 1100
}

/// The bound on `tapered` for weights and phases in range.
pub open spec fn tapered_bound() -> int {
    60000
}

pub proof fn lemma_tapered_bound(mg: int, eg: int, phase: int)
    requires
        weight_in_range(mg),
        weight_in_range(eg),
        phase_in_range(phase),
    ensures
        -tapered_bound() <= tapered(mg, eg, phase) <= tapered_bound(),
        -2147483648 <= mg * (256 - phase) <= 2147483647,
        -2147483648 <= eg * phase <= 2147483647,
        -2147483648 <= mg * (256 - phase) + eg * phase <= 2147483647,
{
    assert(-1100 * 6256 <= mg * (256 - phase) <= 1100 * 6256) by (nonlinear_arith)
        requires
            -1100 <= mg <= 1100,
            -44 <= 256 - phase <= 6256,
    ;
    assert(-1100 * 6000 <= eg * phase <= 1100 * 6000) by (nonlinear_arith)
        requires
            -1100 <= eg <= 1100,
            -6000 <= phase <= 300,
    ;
}

#[derive(Clone, Copy, Debug, PartialEq, Eq, Structural)]
pub struct Eval {
    pub score: i32,
    pub mate: bool,
}

impl Eval {
    pub fn new(score: i32, mate: bool) -> (e: Eval)
        ensures
            e.score == score,
            e.mate == mate,
    {
        Eval { score: score, mate: mate }
    }
}

/// A pair of weights: middlegame and endgame.
#[derive(Clone, Copy, Debug, PartialEq, Eq, Structural)]
pub struct Score {
    pub mg: i32,
    pub eg: i32,
}

impl Score {
    pub fn new(mg: i32, eg: i32) -> (s: Score)
        ensures
            s.mg == mg,
            s.eg == eg,
    {
        Score { mg: mg, eg: eg }
    }

    /// The weight interpolated by `phase`, out of `TOTAL_PHASE`: the middlegame
    /// weight at phase 0, the endgame weight at phase 256.
    pub fn eval(&self, phase: i32) -> (r: i32)
        requires
            phase >= -2147483391,
            -2147483648 <= self.mg * (256 - phase) <= 2147483647,
            -2147483648 <= self.eg * phase <= 2147483647,
            -2147483648 <= self.mg * (256 - phase) + self.eg * phase <= 2147483647,
        ensures
            r == tapered(self.mg as int, self.eg as int, phase as int),
    {
        ((self.mg * (TOTAL_PHASE - phase)) + (self.eg * phase)) / TOTAL_PHASE
    }
}

/// A middlegame score counts in full at phase 0, an endgame score at full phase.
pub proof fn lemma_tapered_endpoints(mg: int, eg: int)
    ensures
        tapered(mg, eg, 0) == mg,
        tapered(mg, eg, 256) == eg,
{
    assert(mg * 256 + eg * 0 == mg * 256) by (nonlinear_arith);
    assert(mg * (256 - 256) + eg * 256 == eg * 256) by (nonlinear_arith);
    assert((mg * 256) / 256 == mg) by (nonlinear_arith);
    assert((eg * 256) / 256 == eg) by (nonlinear_arith);
    assert((-(mg * 256)) / 256 == -mg) by (nonlinear_arith);
    assert((-(eg * 256)) / 256 == -eg) by (nonlinear_arith);
}

/// Equal weights give that weight whatever the phase in `[0, 256]`.
pub proof fn lemma_tapered_constant(w: int, phase: int)
    requires
        0 <= phase <= 256,
    ensures
        tapered(w, w, phase) == w,
{
    assert(w * (256 - phase) + w * phase == w * 256) by (nonlinear_arith);
    assert((w * 256) / 256 == w) by (nonlinear_arith);
    assert((-(w * 256)) / 256 == -w) by (nonlinear_arith);
}

} // verus!
