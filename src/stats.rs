use vstd::prelude::*;
use vstd::arithmetic::mul::lemma_mul_inequality;
use vstd::seq_lib::{commutative_foldr, group_to_multiset_ensures, lemma_fold_right_permutation};

verus! {

/// Sum of a sequence of durations.
pub open spec fn sum_of(s: Seq<u64>) -> int
    decreases s.len(),
{
    if s.len() == 0 {
        0
    } else {
        sum_of(s.drop_last()) + s.last()
    }
}

/// Smallest element of a non-empty sequence.
pub open spec fn min_of(s: Seq<u64>) -> u64
    recommends
        s.len() > 0,
    decreases s.len(),
{
    if s.len() <= 1 {
        s[0]
    } else {
        let m = min_of(s.drop_last());
        if s.last() < m {
            s.last()
        } else {
            m
        }
    }
}

/// Largest element of a non-empty sequence.
pub open spec fn max_of(s: Seq<u64>) -> u64
    recommends
        s.len() > 0,
    decreases s.len(),
{
    if s.len() <= 1 {
        s[0]
    } else {
        let m = max_of(s.drop_last());
        if s.last() > m {
            s.last()
        } else {
            m
        }
    }
}

/// Arithmetic mean of a non-empty sequence, rounded down.
pub open spec fn mean_of(s: Seq<u64>) -> int
    recommends
        s.len() > 0,
{
    sum_of(s) / (s.len() as int)
}

/// The `n` most recent entries of a log (the whole log when it is shorter).
pub open spec fn last_n(log: Seq<u64>, n: nat) -> Seq<u64> {
    if log.len() <= n {
        log
    } else {
        log.subrange(log.len() - n, log.len() as int)
    }
}

/// The rolling average of the last `count` solves: `None` while fewer than
/// `count` solves exist; the plain mean of a window of one or two; otherwise
/// the mean of the window with one smallest and one largest entry left out.
pub open spec fn trimmed_average(log: Seq<u64>, count: nat) -> Option<u64> {
    if log.len() < count {
        None
    } else {
        let w = last_n(log, count);
        if count < 3 {
            Some(mean_of(w) as u64)
        } else {
            Some(((sum_of(w) - min_of(w) - max_of(w)) / (count - 2)) as u64)
        }
    }
}

/// The best (smallest) of the last `count` solves, `None` on an empty log or
/// an empty window.
pub open spec fn best_of(log: Seq<u64>, count: nat) -> Option<u64> {
    if log.len() == 0 || count == 0 {
        None
    } else {
        Some(min_of(last_n(log, count)))
    }
}

/// The best (smallest) solve of the whole log, `None` on an empty log.
pub open spec fn best_total(log: Seq<u64>) -> Option<u64> {
    if log.len() == 0 {
        None
    } else {
        Some(min_of(log))
    }
}

proof fn lemma_min_max_bounds(s: Seq<u64>)
    requires
        s.len() > 0,
    ensures
        forall|i: int| 0 <= i < s.len() ==> min_of(s) <= #[trigger] s[i] <= max_of(s),
        s.contains(min_of(s)),
        s.contains(max_of(s)),
        min_of(s) <= max_of(s),
    decreases s.len(),
{
    if s.len() > 1 {
        lemma_min_max_bounds(s.drop_last());
        assert forall|i: int| 0 <= i < s.len() implies min_of(s) <= #[trigger] s[i] <= max_of(s) by {
            if i < s.len() - 1 {
                assert(s[i] == s.drop_last()[i]);
            }
        }
        if s.last() >= min_of(s.drop_last()) {
            let j = choose|j: int| 0 <= j < s.len() - 1 && s.drop_last()[j] == min_of(s.drop_last());
            assert(s[j] == min_of(s));
        } else {
            assert(s[s.len() - 1] == min_of(s));
        }
        if s.last() <= max_of(s.drop_last()) {
            let j = choose|j: int| 0 <= j < s.len() - 1 && s.drop_last()[j] == max_of(s.drop_last());
            assert(s[j] == max_of(s));
        } else {
            assert(s[s.len() - 1] == max_of(s));
        }
    } else {
        assert(s[0] == min_of(s));
    }
}

proof fn lemma_sum_bounds(s: Seq<u64>)
    ensures
        0 <= sum_of(s) <= s.len() * 0xffff_ffff_ffff_ffffint,
    decreases s.len(),
{
    if s.len() > 0 {
        lemma_sum_bounds(s.drop_last());
    }
}

proof fn lemma_sum_concat(a: Seq<u64>, b: Seq<u64>)
    ensures
        sum_of(a + b) == sum_of(a) + sum_of(b),
    decreases b.len(),
{
    if b.len() > 0 {
        assert((a + b).drop_last() =~= a + b.drop_last());
        lemma_sum_concat(a, b.drop_last());
    } else {
        assert(a + b =~= a);
    }
}

proof fn lemma_sum_within(s: Seq<u64>, lo: int, hi: int)
    requires
        forall|i: int| 0 <= i < s.len() ==> lo <= #[trigger] s[i] <= hi,
    ensures
        s.len() * lo <= sum_of(s) <= s.len() * hi,
    decreases s.len(),
{
    if s.len() > 0 {
        let d = s.drop_last();
        assert forall|i: int| 0 <= i < d.len() implies lo <= #[trigger] d[i] <= hi by {
            assert(d[i] == s[i]);
        }
        lemma_sum_within(d, lo, hi);
        assert(s[s.len() - 1] == s.last());
        assert(s.len() * lo == d.len() * lo + lo) by (nonlinear_arith)
            requires
                s.len() == d.len() + 1,
        ;
        assert(s.len() * hi == d.len() * hi + hi) by (nonlinear_arith)
            requires
                s.len() == d.len() + 1,
        ;
    }
}

spec fn add_to_total(x: u64, acc: int) -> int {
    acc + x
}

proof fn lemma_sum_fold(s: Seq<u64>, b: int)
    ensures
        s.fold_right(|x: u64, acc: int| add_to_total(x, acc), b) == b + sum_of(s),
    decreases s.len(),
{
    if s.len() > 0 {
        lemma_sum_fold(s.drop_last(), b + s.last());
    }
}

/// Reordering a sequence does not change its sum.
proof fn lemma_sum_permutation(a: Seq<u64>, b: Seq<u64>)
    requires
        a.to_multiset() == b.to_multiset(),
    ensures
        sum_of(a) == sum_of(b),
{
    let f = |x: u64, acc: int| add_to_total(x, acc);
    assert(commutative_foldr(f));
    lemma_fold_right_permutation(a, b, f, 0);
    lemma_sum_fold(a, 0);
    lemma_sum_fold(b, 0);
}

/// Ascending order of a sequence of durations.
pub open spec fn is_ascending(s: Seq<u64>) -> bool {
    forall|i: int, j: int| 0 <= i < j < s.len() ==> s[i] <= s[j]
}

/// A sorted reordering of `s` starts with its minimum, ends with its maximum,
/// and keeps its sum.
proof fn lemma_sorted_permutation(s: Seq<u64>, t: Seq<u64>)
    requires
        s.len() > 0,
        is_ascending(t),
        s.to_multiset() == t.to_multiset(),
    ensures
        t.len() == s.len(),
        t[0] == min_of(s),
        t[t.len() - 1] == max_of(s),
        sum_of(t) == sum_of(s),
{
    broadcast use group_to_multiset_ensures;

    s.to_multiset_ensures();
    t.to_multiset_ensures();
    assert(t.len() == s.len());
    lemma_min_max_bounds(s);
    lemma_sum_permutation(s, t);
    assert(t.contains(t[0]));
    assert(t.contains(t[t.len() - 1]));
    assert(t.to_multiset().count(t[0]) > 0);
    assert(t.to_multiset().count(t[t.len() - 1]) > 0);
    assert(s.contains(t[0]));
    assert(s.contains(t[t.len() - 1]));
    assert(s.to_multiset().count(min_of(s)) > 0);
    assert(s.to_multiset().count(max_of(s)) > 0);
    assert(t.contains(min_of(s)));
    assert(t.contains(max_of(s)));
    let k = choose|k: int| 0 <= k < t.len() && t[k] == min_of(s);
    let m = choose|m: int| 0 <= m < t.len() && t[m] == max_of(s);
    let a = choose|a: int| 0 <= a < s.len() && s[a] == t[0];
    let b = choose|b: int| 0 <= b < s.len() && s[b] == t[t.len() - 1];
    assert(t[0] <= t[k]);
    assert(t[m] <= t[t.len() - 1]);
}

/// The trimmed sum of a window lies between the window's bounds, counted over
/// what is left after the trim.
proof fn lemma_trimmed_sum_bounds(s: Seq<u64>)
    requires
        s.len() >= 3,
    ensures
        (s.len() - 2) * min_of(s) <= sum_of(s) - min_of(s) - max_of(s) <= (s.len() - 2) * max_of(s),
{
    let t = s.sort_by(|a: u64, b: u64| a <= b);

    let leq = |a: u64, b: u64| a <= b;
    s.lemma_sort_by_ensures(leq);
    assert forall|i: int, j: int| 0 <= i < j < t.len() implies t[i] <= t[j] by {
        assert(leq(t[i], t[j]));
    }
    lemma_sorted_trim(s, t);
    let mid = t.subrange(1, t.len() - 1);
    assert forall|i: int| 0 <= i < mid.len() implies t[0] <= #[trigger] mid[i] <= t[t.len() - 1] by {
        assert(mid[i] == t[i + 1]);
    }
    lemma_sum_within(mid, t[0] as int, t[t.len() - 1] as int);
}

/// Leaving one minimum and one maximum out of a window is the same as leaving
/// out the two ends of any ascending reordering of it.
proof fn lemma_sorted_trim(s: Seq<u64>, t: Seq<u64>)
    requires
        s.len() >= 2,
        is_ascending(t),
        s.to_multiset() == t.to_multiset(),
    ensures
        t.len() == s.len(),
        t[0] == min_of(s),
        t[t.len() - 1] == max_of(s),
        sum_of(t.subrange(1, t.len() - 1)) == sum_of(s) - min_of(s) - max_of(s),
{
    lemma_sorted_permutation(s, t);
    let n = t.len();
    assert(t =~= t.subrange(0, 1) + t.subrange(1, n - 1) + t.subrange(n - 1, n as int));
    lemma_sum_concat(t.subrange(0, 1) + t.subrange(1, n - 1), t.subrange(n - 1, n as int));
    lemma_sum_concat(t.subrange(0, 1), t.subrange(1, n - 1));
    assert(t.subrange(0, 1).drop_last() =~= Seq::<u64>::empty());
    assert(t.subrange(n - 1, n as int).drop_last() =~= Seq::<u64>::empty());
    assert(t.subrange(0, 1).last() == t[0]);
    assert(t.subrange(n - 1, n as int).last() == t[n - 1]);
    assert(sum_of(Seq::<u64>::empty()) == 0);
}

/// The rolling average of the last `count` solves with the best and the worst
/// of them left out (the plain mean when `count` is one or two).
pub fn get_ao(results: &[u64], count: usize) -> (r: Option<u64>)
    requires
        count >= 1,
    ensures
        r == trimmed_average(results@, count as nat),
{
    if results.len() < count {
        return None;
    }
    let start: usize = results.len() - count;
    let ghost log = results@;
    let mut sum: u128 = results[start] as u128;
    let mut lo: u64 = results[start];
    let mut hi: u64 = results[start];
    let mut i: usize = start + 1;
    assert(log.subrange(start as int, i as int).drop_last() =~= Seq::<u64>::empty());
    assert(log.subrange(start as int, i as int).last() == results[start as int]);
    assert(sum_of(Seq::<u64>::empty()) == 0);
    while i < results.len()
        invariant
            log == results@,
            start + 1 <= i <= results.len(),
            start == results.len() - count,
            sum == sum_of(log.subrange(start as int, i as int)),
            lo == min_of(log.subrange(start as int, i as int)),
            hi == max_of(log.subrange(start as int, i as int)),
        decreases results.len() - i,
    {
        let x = results[i];
        proof {
            let w = log.subrange(start as int, i as int);
            assert(log.subrange(start as int, i + 1).drop_last() =~= w);
            lemma_sum_bounds(w);
            lemma_mul_inequality(w.len() as int, 0xffff_ffff_ffff_ffffint, 0xffff_ffff_ffff_ffffint);
        }
        sum = sum + x as u128;
        if x < lo {
            lo = x;
        }
        if x > hi {
            hi = x;
        }
        i = i + 1;
    }
    let ghost w = log.subrange(start as int, results.len() as int);
    assert(w =~= last_n(log, count as nat));
    if count < 3 {
        proof {
            lemma_sum_bounds(w);
            assert(sum / (count as u128) <= 0xffff_ffff_ffff_ffffint) by (nonlinear_arith)
                requires
                    sum <= count * 0xffff_ffff_ffff_ffffint,
                    count >= 1,
            ;
        }
        let mean = sum / (count as u128);
        Some(mean as u64)
    } else {
        proof {
            lemma_min_max_bounds(w);
            lemma_trimmed_sum_bounds(w);
            let t = sum - lo - hi;
            let k = count - 2;
            assert(t / k <= hi) by (nonlinear_arith)
                requires
                    t <= k * hi,
                    k >= 1,
            ;
        }
        let trimmed = sum - lo as u128 - hi as u128;
        let mean = trimmed / ((count - 2) as u128);
        Some(mean as u64)
    }
}

} // verus!

verus! {

/// The best of the last `count` solves; `None` when there are no solves or
/// `count` is zero. A log shorter than `count` is taken whole.
pub fn get_best_of(results: &[u64], count: usize) -> (r: Option<u64>)
    ensures
        r == best_of(results@, count as nat),
{
    if results.len() == 0 || count == 0 {
        return None;
    }
    let start: usize = if results.len() <= count {
        0
    } else {
        results.len() - count
    };
    let ghost log = results@;
    assert(last_n(log, count as nat) =~= log.subrange(start as int, log.len() as int));
    Some(min_in_range(results, start))
}

/// The best solve of the whole log; `None` when there are no solves.
pub fn get_best_total(results: &[u64]) -> (r: Option<u64>)
    ensures
        r == best_total(results@),
{
    if results.len() == 0 {
        return None;
    }
    let ghost log = results@;
    assert(log.subrange(0, log.len() as int) =~= log);
    Some(min_in_range(results, 0))
}

/// Smallest of the entries from `start` to the end.
fn min_in_range(results: &[u64], start: usize) -> (r: u64)
    requires
        start < results.len(),
    ensures
        r == min_of(results@.subrange(start as int, results@.len() as int)),
{
    let ghost log = results@;
    let mut lo: u64 = results[start];
    let mut i: usize = start + 1;
    assert(log.subrange(start as int, i as int)[0] == results[start as int]);
    while i < results.len()
        invariant
            log == results@,
            start + 1 <= i <= results.len(),
            lo == min_of(log.subrange(start as int, i as int)),
        decreases results.len() - i,
    {
        let x = results[i];
        assert(log.subrange(start as int, i + 1).drop_last() =~= log.subrange(start as int, i as int));
        if x < lo {
            lo = x;
        }
        i = i + 1;
    }
    lo
}

/// While the log is shorter than the window there is no rolling average, and
/// the best of the window is the best of the whole log.
pub proof fn lemma_short_log(log: Seq<u64>, count: nat)
    requires
        log.len() < count,
    ensures
        trimmed_average(log, count) is None,
        best_of(log, count) == best_total(log),
        best_of(log, count) is None <==> log.len() == 0,
{
}

/// A window of one or two solves is averaged without trimming.
pub proof fn lemma_small_window_is_plain_mean(log: Seq<u64>, count: nat)
    requires
        1 <= count <= 2,
        log.len() >= count,
    ensures
        trimmed_average(log, count) is Some,
        trimmed_average(log, count).unwrap() == mean_of(
            log.subrange(log.len() - count, log.len() as int),
        ),
{
    let w = log.subrange(log.len() - count, log.len() as int);
    assert(last_n(log, count) =~= w);
    lemma_sum_bounds(w);
    assert(sum_of(w) / (count as int) <= 0xffff_ffff_ffff_ffffint) by (nonlinear_arith)
        requires
            sum_of(w) <= count * 0xffff_ffff_ffff_ffffint,
            sum_of(w) >= 0,
            count >= 1,
    ;
    assert(sum_of(w) / (count as int) >= 0) by (nonlinear_arith)
        requires
            sum_of(w) >= 0,
            count >= 1,
    ;
}

/// From a window of three or more, the rolling average is the mean of the
/// window sorted ascending with its first and last entries dropped: exactly
/// one minimum and one maximum leave, by position.
pub proof fn lemma_trimmed_average_sorted(log: Seq<u64>, count: nat, sorted: Seq<u64>)
    requires
        count >= 3,
        log.len() >= count,
        is_ascending(sorted),
        sorted.to_multiset() == last_n(log, count).to_multiset(),
    ensures
        sorted.len() == count,
        trimmed_average(log, count) is Some,
        trimmed_average(log, count).unwrap() == mean_of(sorted.subrange(1, count - 1)),
{
    let w = last_n(log, count);
    lemma_sorted_trim(w, sorted);
    lemma_min_max_bounds(w);
    lemma_trimmed_sum_bounds(w);
    let t = sum_of(w) - min_of(w) - max_of(w);
    let k = count - 2;
    assert(0 <= t / k <= max_of(w)) by (nonlinear_arith)
        requires
            k * min_of(w) <= t <= k * max_of(w),
            min_of(w) >= 0,
            k >= 1,
    ;
}

/// Appending a solve never raises the best overall: the new best is the
/// smaller of the old best and the new solve.
pub proof fn lemma_best_total_never_rises(log: Seq<u64>, solve: u64)
    ensures
        best_total(log.push(solve)) is Some,
        best_total(log) matches Some(b) ==> best_total(log.push(solve)).unwrap() <= b,
        best_total(log.push(solve)).unwrap() <= solve,
{
    let l = log.push(solve);
    assert(l.drop_last() =~= log);
    if log.len() == 0 {
        assert(l[0] == solve);
    }
}

} // verus!
