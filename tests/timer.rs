use rustcstimer::{
    elapsed_between, step, Indicator, RunOption, RunState, Timer, TimerEvent, HOLD_THRESHOLD,
};

const MS: u64 = 1_000_000;

#[test]
fn default_two_presses_record_one_solve() {
    let mut t = Timer::new(RunOption::Default);
    assert_eq!(t.handle(TimerEvent::Press, 1_000), None);
    assert_eq!(t.state, RunState::Running { start: 1_000 });
    assert_eq!(t.indicator(), Indicator::Running);
    assert_eq!(t.display_time(4_000), 3_000);
    assert_eq!(t.handle(TimerEvent::Press, 9_000), Some(8_000));
    assert_eq!(t.state, RunState::Idle);
    assert_eq!(t.results, vec![8_000]);
    assert_eq!(t.last_duration, Some(8_000));
    assert_eq!(t.display_time(50_000), 8_000);
}

#[test]
fn default_ignores_release_and_tick() {
    let mut t = Timer::new(RunOption::Default);
    assert_eq!(t.handle(TimerEvent::Release, 10), None);
    assert_eq!(t.handle(TimerEvent::Tick, 20), None);
    assert_eq!(t.state, RunState::Idle);
    t.handle(TimerEvent::Press, 30);
    assert_eq!(t.handle(TimerEvent::Release, 40), None);
    assert_eq!(t.state, RunState::Running { start: 30 });
    assert!(t.results.is_empty());
    assert_eq!(t.display_time(0), 0);
}

#[test]
fn hold_early_release_never_runs() {
    let mut t = Timer::new(RunOption::Hold);
    t.handle(TimerEvent::Press, 0);
    assert_eq!(t.state, RunState::ArmedWaiting { hold_start: 0 });
    assert_eq!(t.indicator(), Indicator::Idle);
    t.handle(TimerEvent::Tick, 499 * MS);
    assert_eq!(t.state, RunState::ArmedWaiting { hold_start: 0 });
    assert_eq!(t.handle(TimerEvent::Release, 499 * MS), None);
    assert_eq!(t.state, RunState::Idle);
    assert!(t.results.is_empty());
}

#[test]
fn hold_full_cycle_records_one_solve() {
    let mut t = Timer::new(RunOption::Hold);
    t.handle(TimerEvent::Press, 0);
    t.handle(TimerEvent::Tick, HOLD_THRESHOLD);
    assert_eq!(t.state, RunState::Armed);
    assert_eq!(t.indicator(), Indicator::Armed);
    assert_eq!(t.handle(TimerEvent::Press, 600 * MS), None);
    assert_eq!(t.state, RunState::Armed);
    assert_eq!(t.handle(TimerEvent::Release, 700 * MS), None);
    assert_eq!(t.state, RunState::Running { start: 700 * MS });
    assert_eq!(t.handle(TimerEvent::Release, 800 * MS), None);
    assert_eq!(t.handle(TimerEvent::Press, 12_700 * MS), Some(12_000 * MS));
    assert_eq!(t.state, RunState::Idle);
    assert_eq!(t.results, vec![12_000 * MS]);
}

#[test]
fn hold_threshold_needs_a_tick() {
    let (s, d) = step(RunOption::Hold, RunState::ArmedWaiting { hold_start: 0 }, TimerEvent::Release, 900 * MS);
    assert_eq!((s, d), (RunState::Idle, None));
}

#[test]
fn elapsed_saturates_at_zero() {
    assert_eq!(elapsed_between(10, 25), 15);
    assert_eq!(elapsed_between(25, 10), 0);
    assert_eq!(step(RunOption::Default, RunState::Running { start: 50 }, TimerEvent::Press, 40), (RunState::Idle, Some(0)));
}
