//! The state of a terminal progress bar and the layout of its drawing; the
//! drawing itself, timing and colours are left to the caller.
use vstd::prelude::*;

verus! {

/// How a throughput figure is shown.
#[derive(Clone, Copy, PartialEq, Eq, Structural, Debug)]
pub enum Rate {
    Absolute,
    Bytes,
}

/// Which earlier sample a throughput figure is measured against.
#[derive(Clone, Copy, PartialEq, Eq, Structural, Debug)]
pub enum Timer {
    MostRecent,
    Mean,
}

/// How many cells of each kind a bar of the given size shows.
#[derive(Clone, Copy, PartialEq, Eq, Structural, Debug)]
pub struct BarLayout {
    /// Cells drawn as done, before the head.
    pub done: u64,
    /// Whether the head cell is drawn.
    pub header: bool,
    /// Cells drawn as still waiting.
    pub waiting: u64,
}

/// The cells that stand for finished work when `current` of `target` is done
/// on a bar `visual_len` cells long.
pub open spec fn filled_cells(current: u64, target: u64, visual_len: u64) -> int {
    (current * visual_len) as int / target as int
}

/// A progress bar counting from 0 to a target, with the figures it shows.
#[derive(Clone, Copy, PartialEq, Eq, Structural, Debug)]
pub struct ProgressBar {
    pub current: u64,
    pub target: u64,
    pub visual_len: u64,
    pub percent_done: bool,
    pub amount_done: bool,
    pub supplementary_newline: bool,
    pub done_char: char,
    pub header_char: char,
    pub waiting_char: char,
    pub rate: Option<Rate>,
    pub eta: bool,
    pub timer: Timer,
}

impl ProgressBar {
    /// A bar at `initial` of `target`, `visual_len` cells long, drawn with
    /// `=`, `>` and `-`, with no extra figures.
    pub fn new(initial: u64, target: u64, visual_len: u64) -> (r: ProgressBar)
        ensures
            r == (ProgressBar {
                current: initial,
                target,
                visual_len,
                percent_done: false,
                amount_done: false,
                supplementary_newline: false,
                done_char: '=',
                header_char: '>',
                waiting_char: '-',
                rate: None,
                eta: false,
                timer: Timer::MostRecent,
            }),
    {
        ProgressBar {
            current: initial,
            target,
            visual_len,
            percent_done: false,
            amount_done: false,
            supplementary_newline: false,
            done_char: '=',
            header_char: '>',
            waiting_char: '-',
            rate: None,
            eta: false,
            timer: Timer::MostRecent,
        }
    }

    /// Moves the bar to `new_val`; the caller redraws it.
    pub fn set(&mut self, new_val: u64)
        ensures
            *final(self) == (ProgressBar { current: new_val, ..*old(self) }),
    {
        self.current = new_val;
    }

    /// The cells of the bar as drawn now: the finished share of the length
    /// is filled, its last cell drawn as the head; the rest waits. The amount
    /// done may not pass the target, which must be positive.
    pub fn layout(&self) -> (r: BarLayout)
        requires
            self.current <= self.target,
            self.target > 0,
            self.current * self.visual_len <= u64::MAX,
        ensures
            ({
                let n = filled_cells(self.current, self.target, self.visual_len);
                &&& r.header == (n != 0)
                &&& r.done == if n == 0 { 0 } else { n - 1 }
                &&& r.waiting == self.visual_len - n
            }),
    {
        let n: u64 = (self.current * self.visual_len) / self.target;
        proof {
            let c = self.current as int;
            let t = self.target as int;
            let v = self.visual_len as int;
            assert(c <= t && t > 0 && v >= 0 ==> (c * v) / t <= v) by (nonlinear_arith);
        }
        BarLayout {
            done: if n == 0 { 0 } else { n - 1 },
            header: n != 0,
            waiting: self.visual_len - n,
        }
    }
}

/// Splits a number of seconds into whole days, whole hours of the day left
/// over, and the seconds left after those hours.
pub fn eta_parts(seconds: u64) -> (r: (u64, u64, u64))
    ensures
        r.0 == seconds / 86400,
        r.1 == (seconds % 86400) / 3600,
        r.2 == seconds % 3600,
        seconds == r.0 * 86400 + r.1 * 3600 + r.2,
{
    let days = seconds / 86400;
    let rest = seconds % 86400;
    let hours = rest / 3600;
    let left = rest % 3600;
    proof {
        let s = seconds as int;
        assert(s % 86400 % 3600 == s % 3600) by (nonlinear_arith)
            requires
                s >= 0,
        {
            vstd::arithmetic::div_mod::lemma_mod_mod(s, 3600, 24);
        }
    }
    (days, hours, left)
}

} // verus!
