use vstd::prelude::*;

verus! {

/// How long the trigger must be held, in nanoseconds, before a release starts
/// the timer under [`RunOption::Hold`].
pub const HOLD_THRESHOLD: u64 = 500_000_000;

/// How the timer is armed.
#[derive(Debug, Clone, Copy, PartialEq, Eq, Structural)]
pub enum RunOption {
    /// A press starts the timer and the next press stops it.
    Default,
    /// The trigger must be held for the hold threshold; the release then
    /// starts the timer, and a press stops it.
    Hold,
}

/// Where the timer stands. Instants are nanoseconds of a monotonic clock.
#[derive(Debug, Clone, Copy, PartialEq, Eq, Structural)]
pub enum RunState {
    Idle,
    /// The trigger is held, since `hold_start`, and the threshold has not yet
    /// been seen to pass.
    ArmedWaiting { hold_start: u64 },
    /// The trigger has been held long enough; its release starts the timer.
    Armed,
    /// The timer runs since `start`.
    Running { start: u64 },
}

/// What the timer reacts to.
#[derive(Debug, Clone, Copy, PartialEq, Eq, Structural)]
pub enum TimerEvent {
    /// The trigger key went down.
    Press,
    /// The trigger key came up.
    Release,
    /// No key event: only time passed.
    Tick,
}

/// What the status indicator shows.
#[derive(Debug, Clone, Copy, PartialEq, Eq, Structural)]
pub enum Indicator {
    Idle,
    Armed,
    Running,
}

/// Time from `from` to `to`, zero when the clock reads earlier than `from`.
pub open spec fn elapsed(from: u64, to: u64) -> u64 {
    if to >= from {
        (to - from) as u64
    } else {
        0
    }
}

/// One transition: the next state and the duration of the solve that it
/// completes, if any. Combinations not listed leave the state as it is.
pub open spec fn next(option: RunOption, state: RunState, event: TimerEvent, now: u64) -> (
    RunState,
    Option<u64>,
) {
    match (option, state, event) {
        (_, RunState::Running { start }, TimerEvent::Press) => (
            RunState::Idle,
            Some(elapsed(start, now)),
        ),
        (RunOption::Default, RunState::Idle, TimerEvent::Press) => (
            RunState::Running { start: now },
            None,
        ),
        (RunOption::Hold, RunState::Idle, TimerEvent::Press) => (
            RunState::ArmedWaiting { hold_start: now },
            None,
        ),
        (RunOption::Hold, RunState::ArmedWaiting { .. }, TimerEvent::Release) => (
            RunState::Idle,
            None,
        ),
        (RunOption::Hold, RunState::ArmedWaiting { hold_start }, TimerEvent::Tick) => (
            if elapsed(hold_start, now) >= HOLD_THRESHOLD {
                RunState::Armed
            } else {
                state
            },
            None,
        ),
        (RunOption::Hold, RunState::Armed, TimerEvent::Release) => (
            RunState::Running { start: now },
            None,
        ),
        _ => (state, None),
    }
}

/// Time from `from` to `to`, zero when the clock reads earlier than `from`.
pub fn elapsed_between(from: u64, to: u64) -> (r: u64)
    ensures
        r == elapsed(from, to),
{
    if to >= from {
        to - from
    } else {
        0
    }
}

/// One transition of the timer; see [`next`].
pub fn step(option: RunOption, state: RunState, event: TimerEvent, now: u64) -> (r: (
    RunState,
    Option<u64>,
))
    ensures
        r == next(option, state, event, now),
{
    match state {
        RunState::Running { start } => {
            if event == TimerEvent::Press {
                (RunState::Idle, Some(elapsed_between(start, now)))
            } else {
                (state, None)
            }
        },
        RunState::Idle => {
            if event == TimerEvent::Press {
                match option {
                    RunOption::Default => (RunState::Running { start: now }, None),
                    RunOption::Hold => (RunState::ArmedWaiting { hold_start: now }, None),
                }
            } else {
                (state, None)
            }
        },
        RunState::ArmedWaiting { hold_start } => {
            if option != RunOption::Hold {
                (state, None)
            } else if event == TimerEvent::Release {
                (RunState::Idle, None)
            } else if event == TimerEvent::Tick && elapsed_between(hold_start, now)
                >= HOLD_THRESHOLD {
                (RunState::Armed, None)
            } else {
                (state, None)
            }
        },
        RunState::Armed => {
            if option == RunOption::Hold && event == TimerEvent::Release {
                (RunState::Running { start: now }, None)
            } else {
                (state, None)
            }
        },
    }
}

/// What the status indicator shows in a state: waiting for the threshold
/// still shows idle.
pub open spec fn indicator_of(state: RunState) -> Indicator {
    match state {
        RunState::Running { .. } => Indicator::Running,
        RunState::Armed => Indicator::Armed,
        _ => Indicator::Idle,
    }
}

/// The session's timer: the arming option, the current state and every solve
/// completed so far, oldest first.
pub struct Timer {
    pub run_option: RunOption,
    pub state: RunState,
    pub results: Vec<u64>,
    pub last_duration: Option<u64>,
}

impl Timer {
    /// The last solve completed, if any, is the last of the results.
    pub open spec fn wf(&self) -> bool {
        match self.last_duration {
            Some(d) => self.results@.len() > 0 && self.results@.last() == d,
            None => self.results@.len() == 0,
        }
    }

    /// A fresh session: idle, with no solves.
    pub fn new(run_option: RunOption) -> (r: Timer)
        ensures
            r.wf(),
            r.run_option == run_option,
            r.state == RunState::Idle,
            r.results@ == Seq::<u64>::empty(),
            r.last_duration is None,
    {
        Timer { run_option, state: RunState::Idle, results: Vec::new(), last_duration: None }
    }

    /// Feeds one event to the timer at instant `now`. A completed solve is
    /// appended to the results and returned.
    pub fn handle(&mut self, event: TimerEvent, now: u64) -> (r: Option<u64>)
        requires
            old(self).wf(),
        ensures
            final(self).wf(),
            final(self).run_option == old(self).run_option,
            (final(self).state, r) == next(old(self).run_option, old(self).state, event, now),
            final(self).results@ == match r {
                Some(d) => old(self).results@.push(d),
                None => old(self).results@,
            },
            final(self).last_duration == match r {
                Some(d) => Some(d),
                None => old(self).last_duration,
            },
    {
        let (state, done) = step(self.run_option, self.state, event, now);
        self.state = state;
        if let Some(d) = done {
            self.results.push(d);
            self.last_duration = Some(d);
        }
        done
    }

    /// What the status indicator shows.
    pub fn indicator(&self) -> (r: Indicator)
        ensures
            r == indicator_of(self.state),
    {
        match self.state {
            RunState::Running { .. } => Indicator::Running,
            RunState::Armed => Indicator::Armed,
            _ => Indicator::Idle,
        }
    }

    /// The time to display at `now`: the running time while running, else the
    /// last solve, else zero.
    pub fn display_time(&self, now: u64) -> (r: u64)
        ensures
            r == match self.state {
                RunState::Running { start } => elapsed(start, now),
                _ => match self.last_duration {
                    Some(d) => d,
                    None => 0,
                },
            },
    {
        match self.state {
            RunState::Running { start } => elapsed_between(start, now),
            _ => match self.last_duration {
                Some(d) => d,
                None => 0,
            },
        }
    }
}

} // verus!

verus! {

/// With the default option, two presses from idle complete exactly one solve,
/// timed from the first press to the second, and leave the timer idle.
pub proof fn lemma_default_press_press(t1: u64, t2: u64)
    ensures
        ({
            let (s1, d1) = next(RunOption::Default, RunState::Idle, TimerEvent::Press, t1);
            let (s2, d2) = next(RunOption::Default, s1, TimerEvent::Press, t2);
            &&& s1 == RunState::Running { start: t1 }
            &&& d1 is None
            &&& s2 == RunState::Idle
            &&& d2 == Some(elapsed(t1, t2))
        }),
{
}

/// With the hold option, a press released before the threshold was seen to
/// pass never starts the timer: whatever ticks came before the threshold, the
/// release returns to idle and no solve is completed.
pub proof fn lemma_hold_early_release(t0: u64, t1: u64, t2: u64)
    requires
        elapsed(t0, t1) < HOLD_THRESHOLD,
    ensures
        ({
            let (s1, d1) = next(RunOption::Hold, RunState::Idle, TimerEvent::Press, t0);
            let (s2, d2) = next(RunOption::Hold, s1, TimerEvent::Tick, t1);
            let (s3, d3) = next(RunOption::Hold, s2, TimerEvent::Release, t2);
            let (s4, d4) = next(RunOption::Hold, s1, TimerEvent::Release, t1);
            &&& s1 == RunState::ArmedWaiting { hold_start: t0 }
            &&& s2 == s1
            &&& s3 == RunState::Idle
            &&& s4 == RunState::Idle
            &&& d1 is None && d2 is None && d3 is None && d4 is None
        }),
{
}

/// With the hold option, a press held past the threshold, a tick that sees
/// it, and the release start the timer at the release; the next press stops
/// it and completes exactly one solve, timed from release to press.
pub proof fn lemma_hold_full_cycle(t0: u64, t1: u64, t2: u64, t3: u64)
    requires
        elapsed(t0, t1) >= HOLD_THRESHOLD,
    ensures
        ({
            let (s1, d1) = next(RunOption::Hold, RunState::Idle, TimerEvent::Press, t0);
            let (s2, d2) = next(RunOption::Hold, s1, TimerEvent::Tick, t1);
            let (s3, d3) = next(RunOption::Hold, s2, TimerEvent::Release, t2);
            let (s4, d4) = next(RunOption::Hold, s3, TimerEvent::Press, t3);
            &&& s2 == RunState::Armed
            &&& s3 == RunState::Running { start: t2 }
            &&& s4 == RunState::Idle
            &&& d1 is None && d2 is None && d3 is None
            &&& d4 == Some(elapsed(t2, t3))
        }),
{
}

} // verus!
