//! Time control and the iterative deepening loop: what each iteration
//! searches, how its result is taken, and when the clock stops the search.

use vstd::prelude::*;
use crate::chess::Color;
use crate::eval::score::trunc_div;
use crate::movegen::boardwrapper::BoardWrapper;

verus! {

/// The limits of one search.
#[derive(Clone, Copy, Debug, PartialEq, Eq, Structural)]
pub struct TimeControl {
    pub depth: i32,
    pub wtime: i64,
    pub btime: i64,
    pub winc: i64,
    pub binc: i64,
    pub movetime: Option<i64>,
    pub movestogo: Option<i64>,
}

impl TimeControl {
    /// No limit: the depth and clocks at their maximum, no increment.
    pub fn new() -> (tc: TimeControl)
        ensures
            tc == (TimeControl {
                depth: i32::MAX,
                wtime: i64::MAX,
                btime: i64::MAX,
                winc: 0,
                binc: 0,
                movetime: None,
                movestogo: None,
            }),
    {
        TimeControl {
            depth: i32::MAX,
            wtime: i64::MAX,
            btime: i64::MAX,
            winc: 0,
            binc: 0,
            movetime: None,
            movestogo: None,
        }
    }
}

/// What the search of one thread is handed: the position, the depth and
/// bounds, and the hashes of the positions played before.
pub struct SearchInfo {
    pub boardwrapper: BoardWrapper,
    pub depth: i32,
    pub alpha: i32,
    pub beta: i32,
    pub past_positions: Vec<u64>,
}

/// A signed count read as unsigned, as `as u64` does: negative values wrap.
pub open spec fn wrap_u64(x: int) -> int {
    if x >= 0 {
        x
    } else {
        x + 0x1_0000_0000_0000_0000
    }
}

fn to_u64(x: i64) -> (r: u64)
    ensures
        r == wrap_u64(x as int),
{
    if x >= 0 {
        x as u64
    } else {
        let m: i128 = (x as i128) + 0x1_0000_0000_0000_0000i128;
        m as u64
    }
}

/// The clock and increment of the side to move, read as unsigned.
pub fn side_clock(tc: &TimeControl, side: Color) -> (r: (u64, u64))
    ensures
        r == (match side {
            Color::White => (wrap_u64(tc.wtime as int) as u64, wrap_u64(tc.winc as int) as u64),
            Color::Black => (wrap_u64(tc.btime as int) as u64, wrap_u64(tc.binc as int) as u64),
        }),
{
    match side {
        Color::White => (to_u64(tc.wtime), to_u64(tc.winc)),
        Color::Black => (to_u64(tc.btime), to_u64(tc.binc)),
    }
}

/// The divisor of the remaining time: `base`, divided by a tenth of the
/// moves to go where those are given.
pub open spec fn time_divisor(base: int, movestogo: Option<i64>) -> int {
    match movestogo {
        Some(m) => trunc_div(base, trunc_div(m as int, 10)),
        None => base,
    }
}

/// Whether dividing the clock by that divisor is defined: a tenth of the
/// moves to go is not zero, the divisor read as unsigned is not zero, and
/// clock and increment add up within `u64`.
pub open spec fn timeout_defined(time: u64, inc: u64, base: int, movestogo: Option<i64>) -> bool {
    &&& movestogo matches Some(m) ==> trunc_div(m as int, 10) != 0
    &&& wrap_u64(time_divisor(base, movestogo)) != 0
    &&& time + inc <= u64::MAX
}

proof fn lemma_div_by_negative(a: int, b: int)
    requires
        a >= 0,
        b < 0,
    ensures
        a / b == -(a / (-b)),
{
    let q = a / (-b);
    let r = a % (-b);
    assert(a == (-b) * q + r && 0 <= r < -b) by {
        vstd::arithmetic::div_mod::lemma_fundamental_div_mod(a, -b);
    }
    assert(a == b * (-q) + r) by (nonlinear_arith)
        requires
            a == (-b) * q + r,
    ;
    assert(a / b == -q) by (nonlinear_arith)
        requires
            a == b * (-q) + r,
            0 <= r < -b,
            b < 0,
    ;
}

fn divisor(base: i64, movestogo: Option<i64>) -> (r: i64)
    requires
        0 < base <= 25,
        movestogo matches Some(m) ==> trunc_div(m as int, 10) != 0,
    ensures
        r == time_divisor(base as int, movestogo),
{
    match movestogo {
        Some(m) => {
            let tenth = m / 10;
            assert(tenth == trunc_div(m as int, 10));
            if tenth > 0 {
                base / tenth
            } else {
                let neg = -tenth;
                let q = base / neg;
                proof {
                    lemma_div_by_negative(base as int, tenth as int);
                }
                -q
            }
        },
        None => base,
    }
}

/// The time after which no new iteration starts: a twenty-fifth of clock
/// plus increment, or a share by the moves to go. `None` for an unset clock.
pub fn soft_timeout(time: u64, inc: u64, movestogo: Option<i64>) -> (r: Option<u64>)
    requires
        time != u64::MAX ==> timeout_defined(time, inc, 25, movestogo),
    ensures
        r == (if time == u64::MAX {
            None
        } else {
            Some(((time + inc) / wrap_u64(time_divisor(25, movestogo))) as u64)
        }),
{
    if time != u64::MAX {
        let div = divisor(25, movestogo);
        Some((time + inc) / to_u64(div))
    } else {
        None
    }
}

/// The time after which the search is stopped: the move time where one is
/// set, else half of clock plus increment, or a share by the moves to go.
pub fn hard_timeout(time: u64, inc: u64, movetime: Option<i64>, movestogo: Option<i64>) -> (r: u64)
    requires
        movetime is None ==> timeout_defined(time, inc, 2, movestogo),
    ensures
        r == (match movetime {
            Some(t) => wrap_u64(t as int),
            None => (time + inc) / wrap_u64(time_divisor(2, movestogo)),
        }),
{
    match movetime {
        Some(t) => to_u64(t),
        None => {
            let div = divisor(2, movestogo);
            (time + inc) / to_u64(div)
        },
    }
}

/// The state of iterative deepening: the depths completed, the last score
/// taken and the half-width of the aspiration window around it.
#[derive(Clone, Copy, Debug, PartialEq, Eq, Structural)]
pub struct Deepening {
    pub depth_index: i32,
    pub last_result: i32,
    pub window: i32,
}

impl Deepening {
    pub open spec fn inside(self, score: int) -> bool {
        self.last_result - self.window < score < self.last_result + self.window
    }

    /// Nothing searched yet, a window of 10 around 0.
    pub fn new() -> (d: Deepening)
        ensures
            d == (Deepening { depth_index: 0, last_result: 0, window: 10 }),
    {
        Deepening { depth_index: 0, last_result: 0, window: 10 }
    }

    /// Another iteration runs while the depth limit and 250 plies are not
    /// reached.
    pub fn searching(&self, max_depth: i32) -> (r: bool)
        ensures
            r == (self.depth_index < max_depth && self.depth_index < 250),
    {
        self.depth_index < max_depth && self.depth_index < 250
    }

    /// The bounds of the next iteration: the aspiration window from the
    /// fourth depth on, no bounds before.
    pub fn bounds(&self) -> (r: (i32, i32))
        requires
            self.depth_index < i32::MAX,
            self.depth_index + 1 > 3 ==> i32::MIN <= self.last_result - self.window <= i32::MAX
                && i32::MIN <= self.last_result + self.window <= i32::MAX,
        ensures
            r == (if self.depth_index + 1 > 3 {
                (
                    (self.last_result - self.window) as i32,
                    (self.last_result + self.window) as i32,
                )
            } else {
                ((-i32::MAX) as i32, i32::MAX)
            }),
    {
        if self.depth_index + 1 > 3 {
            (self.last_result - self.window, self.last_result + self.window)
        } else {
            (-i32::MAX, i32::MAX)
        }
    }

    /// Takes the score of an iteration. A score strictly inside the window
    /// is taken: the depth advances and the window is reset. Any other score
    /// doubles the window and the same depth is searched again.
    pub fn record(&mut self, score: i32) -> (taken: bool)
        requires
            0 <= old(self).window <= 0x3fff_ffff,
            old(self).depth_index < i32::MAX,
        ensures
            taken == old(self).inside(score as int),
            taken ==> *final(self) == (Deepening {
                depth_index: (old(self).depth_index + 1) as i32,
                last_result: score,
                window: 10,
            }),
            !taken ==> *final(self) == (Deepening { window: (old(self).window * 2) as i32, ..*old(self) }),
    {
        let s = score as i64;
        let last = self.last_result as i64;
        let w = self.window as i64;
        if s <= last - w || s >= last + w {
            self.window = self.window * 2;
            false
        } else {
            self.window = 10;
            self.last_result = score;
            self.depth_index = self.depth_index + 1;
            true
        }
    }
}

/// Whether a thread's finished iteration becomes the engine's answer: it is
/// deeper than the best so far, as deep with a better score, or the only
/// thread.
pub fn is_main_thread(depth_index: i32, best_depth: i32, score: i32, best_eval: i32, thread_count: u32) -> (r: bool)
    ensures
        r == (depth_index > best_depth || (depth_index == best_depth && score > best_eval)
            || thread_count == 1),
{
    depth_index > best_depth || (depth_index == best_depth && score > best_eval) || thread_count == 1
}

} // verus!
