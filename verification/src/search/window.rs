//! The alpha-beta search window.

use vstd::prelude::*;

verus! {

/// The lowest bound a window starts from.
pub const ALPHA_BOUND: i32 = -2147483647;

/// The highest bound a window starts from.
pub const BETA_BOUND: i32 = 2147483647;

#[derive(Clone, Copy, Debug, PartialEq, Eq, Structural)]
pub struct Window {
    pub alpha: i32,
    pub beta: i32,
}

impl Window {
    /// The score falls strictly inside the window.
    pub open spec fn inside(self, score: int) -> bool {
        self.alpha < score < self.beta
    }

    /// The window is wider than a null window.
    pub open spec fn pv(self) -> bool {
        self.beta > self.alpha + 1
    }

    /// The window seen from the other side: bounds negated and swapped.
    pub open spec fn flipped(self) -> Window {
        Window { alpha: (-self.beta) as i32, beta: (-self.alpha) as i32 }
    }

    /// The null window just above `around`.
    pub open spec fn null_around(around: int) -> Window {
        Window { alpha: around as i32, beta: (around + 1) as i32 }
    }

    /// Both bounds can be negated.
    pub open spec fn negatable(self) -> bool {
        self.alpha > i32::MIN && self.beta > i32::MIN
    }

    /// The widest window.
    pub fn new() -> (w: Window)
        ensures
            w.alpha == ALPHA_BOUND,
            w.beta == BETA_BOUND,
    {
        Window { alpha: ALPHA_BOUND, beta: BETA_BOUND }
    }

    pub fn is_pv_children(&self, score: i32) -> (r: bool)
        ensures
            r == self.inside(score as int),
    {
        self.alpha < score && score < self.beta
    }

    /// The score is above alpha.
    pub fn can_raise_alpha(&self, score: i32) -> (r: bool)
        ensures
            r == (score > self.alpha),
    {
        score > self.alpha
    }

    /// Beta is at least alpha.
    pub fn cutoff(&self) -> (r: bool)
        ensures
            r == (self.beta >= self.alpha),
    {
        self.beta >= self.alpha
    }

    pub fn is_pv(&self) -> (r: bool)
        requires
            self.alpha < i32::MAX,
        ensures
            r == self.pv(),
    {
        self.beta > self.alpha + 1
    }

    pub fn set_alpha(&mut self, alpha: i32)
        ensures
            final(self).alpha == alpha,
            final(self).beta == old(self).beta,
    {
        self.alpha = alpha;
    }

    pub fn set_beta(&mut self, beta: i32)
        ensures
            final(self).beta == beta,
            final(self).alpha == old(self).alpha,
    {
        self.beta = beta;
    }

    pub fn create_null(&self, around: i32) -> (w: Window)
        requires
            around < i32::MAX,
        ensures
            w == Window::null_around(around as int),
            w.alpha == around,
            w.beta == around + 1,
    {
        Window { alpha: around, beta: around + 1 }
    }

    pub fn flip(&self) -> (w: Window)
        requires
            self.negatable(),
        ensures
            w == self.flipped(),
            w.alpha == -self.beta,
            w.beta == -self.alpha,
    {
        Window { alpha: -self.beta, beta: -self.alpha }
    }
}

/// Flipping a window twice gives it back.
pub proof fn lemma_flip_involutive(w: Window)
    requires
        w.negatable(),
    ensures
        w.flipped().negatable(),
        w.flipped().flipped() == w,
{
}

/// Flipping keeps the width of a window: a PV window stays one, and a score is
/// inside the window exactly when its negation is inside the flipped window.
pub proof fn lemma_flip_mirrors(w: Window, score: int)
    requires
        w.negatable(),
    ensures
        w.flipped().pv() == w.pv(),
        w.inside(score) == w.flipped().inside(-score),
{
}

/// A score strictly inside the window raises alpha.
pub proof fn lemma_inside_raises_alpha(w: Window, score: int)
    requires
        w.inside(score),
    ensures
        score > w.alpha,
{
}

/// A null window is no PV window and holds no score strictly inside it.
pub proof fn lemma_null_window(around: int, score: int)
    requires
        i32::MIN <= around < i32::MAX,
    ensures
        !Window::null_around(around).pv(),
        !Window::null_around(around).inside(score),
{
}

} // verus!
