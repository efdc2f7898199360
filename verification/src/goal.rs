//! The goal of clearing a number of lines: a count of the lines cleared so
//! far, complete once it reaches the target.

use vstd::prelude::*;

use crate::field::LineClear;
use crate::stats::decimal;

verus! {

/// Lines cleared since the game started.
pub struct LinesCleared {
    n_cleared: u32,
}

impl View for LinesCleared {
    type V = nat;

    closed spec fn view(&self) -> nat {
        self.n_cleared as nat
    }
}

/// The lines a line clear counts (none when there was no line clear).
pub open spec fn lines_of(clear: Option<LineClear>) -> nat {
    match clear {
        Some(c) => c@.0 as nat,
        None => 0,
    }
}

impl LinesCleared {
    /// No lines cleared yet.
    pub fn new() -> (r: LinesCleared)
        ensures
            r@ == 0,
    {
        LinesCleared { n_cleared: 0 }
    }

    pub fn n_cleared(&self) -> (r: u32)
        ensures
            r == self@,
    {
        self.n_cleared
    }

    /// Count the lines of the last line clear.
    pub fn add(&mut self, last_line_clear: &Option<LineClear>)
        requires
            old(self)@ + lines_of(*last_line_clear) <= u32::MAX,
        ensures
            final(self)@ == old(self)@ + lines_of(*last_line_clear),
    {
        let n: u32 = match last_line_clear {
            Some(c) => c.n_lines() as u32,
            None => 0,
        };
        self.n_cleared = self.n_cleared + n;
    }

    /// The goal of `goal_n_lines` lines is reached.
    pub fn is_completed(&self, goal_n_lines: u32) -> (r: bool)
        ensures
            r == (goal_n_lines <= self@),
    {
        goal_n_lines <= self.n_cleared
    }

    /// The count and the goal, as in "12/40".
    pub fn display(&self, goal_n_lines: u32) -> (r: String)
        ensures
            r@ == decimal(self@) + "/"@ + decimal(goal_n_lines as nat),
    {
        let mut r = crate::stats::decimal_string(self.n_cleared as usize);
        r.append("/");
        let goal = crate::stats::decimal_string(goal_n_lines as usize);
        r.append(goal.as_str());
        r
    }
}

} // verus!
