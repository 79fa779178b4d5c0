//! A terminal stopwatch for timed puzzle-solving practice: the statistics over
//! completed solves, the timer's state machine, the saved solves, and the small
//! pure decisions of the options menu and the screen layout.
//!
//! All durations and instants are whole nanoseconds (`u64`); an instant is
//! measured from an arbitrary fixed origin of a monotonic clock.

pub mod config;
pub mod menu;
pub mod stats;
pub mod timer;

pub use config::{AppConfig, Solve, Solves, TimerStyle};
pub use menu::{box_glyphs, centered, menu_step, MenuAction, MenuKey, MENU_ENTRIES};
pub use stats::{get_ao, get_best_of, get_best_total};
pub use timer::{
    elapsed_between, step, Indicator, RunOption, RunState, Timer, TimerEvent, HOLD_THRESHOLD,
};
