use vstd::prelude::*;
use crate::timer::RunOption;

verus! {

/// One saved solve: its time in milliseconds and when it was made.
#[derive(Debug, Clone)]
pub struct Solve {
    pub time: u128,
    pub timestamp: String,
}

/// The saved solves, oldest first.
#[derive(Debug, Clone)]
pub struct Solves {
    pub solves: Vec<Solve>,
}

impl Solves {
    /// No saved solves.
    pub fn new() -> (r: Solves)
        ensures
            r.solves@.len() == 0,
    {
        Solves { solves: Vec::new() }
    }

    /// Appends a solve after the ones already saved.
    pub fn add(&mut self, solve: Solve)
        ensures
            final(self).solves@ == old(self).solves@.push(solve),
    {
        self.solves.push(solve);
    }
}

impl Default for Solves {
    fn default() -> (r: Solves)
        ensures
            r.solves@.len() == 0,
    {
        Solves::new()
    }
}

/// How the timer is drawn.
#[derive(Debug, Clone, Copy, PartialEq, Eq, Structural)]
pub enum TimerStyle {
    Text,
    Boxes,
    BoxesRounded,
}

impl TimerStyle {
    /// The style that the menu switches to from `self`, in a cycle.
    pub open spec fn spec_next(self) -> TimerStyle {
        match self {
            TimerStyle::Text => TimerStyle::Boxes,
            TimerStyle::Boxes => TimerStyle::BoxesRounded,
            TimerStyle::BoxesRounded => TimerStyle::Text,
        }
    }

    pub fn next(self) -> (r: TimerStyle)
        ensures
            r == self.spec_next(),
    {
        match self {
            TimerStyle::Text => TimerStyle::Boxes,
            TimerStyle::Boxes => TimerStyle::BoxesRounded,
            TimerStyle::BoxesRounded => TimerStyle::Text,
        }
    }
}

impl RunOption {
    /// The other arming option.
    pub open spec fn spec_toggled(self) -> RunOption {
        match self {
            RunOption::Default => RunOption::Hold,
            RunOption::Hold => RunOption::Default,
        }
    }

    pub fn toggled(self) -> (r: RunOption)
        ensures
            r == self.spec_toggled(),
    {
        match self {
            RunOption::Default => RunOption::Hold,
            RunOption::Hold => RunOption::Default,
        }
    }
}

/// The session's settings, fixed once the timer starts.
#[derive(Debug, Clone, Copy, PartialEq, Eq, Structural)]
pub struct AppConfig {
    pub style: TimerStyle,
    pub run_option: RunOption,
}

impl Default for AppConfig {
    /// Boxes, armed by a plain press.
    fn default() -> (r: AppConfig)
        ensures
            r == (AppConfig { style: TimerStyle::Boxes, run_option: RunOption::Default }),
    {
        AppConfig { style: TimerStyle::Boxes, run_option: RunOption::Default }
    }
}

} // verus!
