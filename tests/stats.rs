use rustcstimer::{get_ao, get_best_of, get_best_total};

const SEC: u64 = 1_000_000_000;
const MS: u64 = 1_000_000;

fn example_log() -> Vec<u64> {
    vec![12 * SEC, 11 * SEC, 13 * SEC + 500 * MS, 10 * SEC, 14 * SEC]
}

#[test]
fn trimmed_average_of_last_four_drops_one_min_and_one_max() {
    let log = example_log();
    assert_eq!(get_ao(&log, 4), Some(12 * SEC + 250 * MS));
}

#[test]
fn trimmed_average_of_five_uses_whole_window() {
    let log = example_log();
    // sorted: 10, 11, 12, 13.5, 14; kept: 11, 12, 13.5; sum 36.5 s over 3
    assert_eq!(get_ao(&log, 5), Some(12_166_666_666));
}

#[test]
fn short_log_has_no_average() {
    let log = vec![5 * SEC, 6 * SEC, 7 * SEC];
    assert_eq!(get_ao(&log, 5), None);
    assert_eq!(get_ao(&log, 12), None);
    assert_eq!(get_ao(&[], 1), None);
}

#[test]
fn short_log_best_of_window_is_best_overall() {
    let log = vec![5 * SEC, 4 * SEC, 7 * SEC];
    assert_eq!(get_best_of(&log, 12), Some(4 * SEC));
    assert_eq!(get_best_of(&log, 12), get_best_total(&log));
    assert_eq!(get_best_of(&[], 12), None);
}

#[test]
fn small_windows_are_plain_means() {
    let log = vec![9 * SEC, 3 * SEC, 4 * SEC];
    assert_eq!(get_ao(&log, 1), Some(4 * SEC));
    assert_eq!(get_ao(&log, 2), Some(3 * SEC + 500 * MS));
    let odd = vec![1, 2];
    assert_eq!(get_ao(&odd, 2), Some(1));
}

#[test]
fn trim_is_positional_with_duplicates() {
    let log = vec![5, 5, 5, 9, 9];
    // sorted 5 5 5 9 9, kept 5 5 9
    assert_eq!(get_ao(&log, 5), Some(19 / 3));
    let same = vec![7, 7, 7];
    assert_eq!(get_ao(&same, 3), Some(7));
}

#[test]
fn trimmed_average_of_three_is_the_median() {
    let log = vec![100, 30, 50];
    assert_eq!(get_ao(&log, 3), Some(50));
}

#[test]
fn window_takes_most_recent_entries() {
    let log = vec![1, 100, 200, 300, 400, 500];
    // last five: 100..500, kept 200 300 400
    assert_eq!(get_ao(&log, 5), Some(300));
    assert_eq!(get_best_of(&log, 5), Some(100));
    assert_eq!(get_best_of(&log, 6), Some(1));
    assert_eq!(get_best_total(&log), Some(1));
}

#[test]
fn best_of_empty_window_is_none() {
    let log = vec![3, 4];
    assert_eq!(get_best_of(&log, 0), None);
}

#[test]
fn largest_durations_do_not_overflow() {
    let log = vec![u64::MAX; 12];
    assert_eq!(get_ao(&log, 12), Some(u64::MAX));
    assert_eq!(get_ao(&log, 2), Some(u64::MAX));
    assert_eq!(get_best_of(&log, 12), Some(u64::MAX));
}

#[test]
fn best_overall_never_rises_when_appending() {
    let mut log: Vec<u64> = Vec::new();
    assert_eq!(get_best_total(&log), None);
    let mut prev: Option<u64> = None;
    for x in [12 * SEC, 15 * SEC, 11 * SEC, 20 * SEC, 11 * SEC, 9 * SEC] {
        log.push(x);
        let best = get_best_total(&log).unwrap();
        if let Some(p) = prev {
            assert!(best <= p);
        }
        assert!(best <= x);
        prev = Some(best);
    }
    assert_eq!(prev, Some(9 * SEC));
}

#[test]
fn statistics_are_deterministic() {
    let log = example_log();
    let first = (get_ao(&log, 5), get_ao(&log, 12), get_best_of(&log, 12), get_best_total(&log));
    let second = (get_ao(&log, 5), get_ao(&log, 12), get_best_of(&log, 12), get_best_total(&log));
    assert_eq!(first, second);
    assert_eq!(log, example_log());
}
