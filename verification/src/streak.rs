//! Streaks: runs of training days whose gaps stay within a tolerance.
//!
//! The functions read the training days in the order given. They are meant
//! for distinct days in ascending order; `calendar::training_days` yields
//! such a list.

use crate::date::Date;
use vstd::prelude::*;

verus! {

/// The streak figures of a list of training days.
#[derive(Clone, Copy, Debug, PartialEq, Eq, Structural)]
pub struct StreakSummary {
    /// The length of the run that ends at the last day, or zero where that
    /// day lies further back from today than the tolerance.
    pub current_streak: usize,
    /// The length of the longest run.
    pub longest_streak: usize,
    /// The widest gap between two neighbouring days, in days.
    pub longest_gap_days: Option<i64>,
}

/// The number of days from the day at `k - 1` to the day at `k`.
pub open spec fn gap_before(dates: Seq<Date>, k: int) -> int {
    dates[k].days - dates[k - 1].days
}

/// Whether the days at `first ..= last` form a run: each neighbouring pair
/// lies at most `interval` days apart.
pub open spec fn is_run(dates: Seq<Date>, first: int, last: int, interval: int) -> bool {
    &&& 0 <= first <= last < dates.len()
    &&& forall|k: int| first < k <= last ==> #[trigger] gap_before(dates, k) <= interval
}

/// The length of the longest run that ends at index `k`.
pub open spec fn spec_run_ending_at(dates: Seq<Date>, k: int, interval: int) -> nat
    decreases k,
{
    if k <= 0 {
        1
    } else if gap_before(dates, k) <= interval {
        1 + spec_run_ending_at(dates, k - 1, interval)
    } else {
        1
    }
}

/// The length of the longest run among the first `n` days.
pub open spec fn spec_longest_upto(dates: Seq<Date>, n: int, interval: int) -> nat
    decreases n,
{
    if n <= 0 {
        0
    } else {
        let earlier = spec_longest_upto(dates, n - 1, interval);
        let here = spec_run_ending_at(dates, n - 1, interval);
        if here > earlier {
            here
        } else {
            earlier
        }
    }
}

/// The widest gap between neighbours among the first `n` days.
pub open spec fn spec_longest_gap_upto(dates: Seq<Date>, n: int) -> Option<int>
    decreases n,
{
    if n <= 1 {
        None
    } else {
        match spec_longest_gap_upto(dates, n - 1) {
            Some(widest) if widest >= gap_before(dates, n - 1) => Some(widest),
            _ => Some(gap_before(dates, n - 1)),
        }
    }
}

/// The length of the longest run in the whole list.
pub open spec fn spec_longest_streak(dates: Seq<Date>, interval: int) -> nat {
    spec_longest_upto(dates, dates.len() as int, interval)
}

/// The widest gap between neighbours in the whole list.
pub open spec fn spec_longest_gap(dates: Seq<Date>) -> Option<int> {
    spec_longest_gap_upto(dates, dates.len() as int)
}

/// The length of the run that ends at the last day, counted only while that
/// day lies at most `interval` days before `today`.
pub open spec fn spec_current_streak(dates: Seq<Date>, interval: int, today: Date) -> nat {
    if dates.len() == 0 {
        0
    } else if today.days - dates.last().days <= interval {
        spec_run_ending_at(dates, dates.len() - 1, interval)
    } else {
        0
    }
}

/// The run counted at index `k` is a run, it ends at `k`, and it cannot be
/// extended backwards: it starts at the first day or after a gap wider than
/// the tolerance.
pub proof fn lemma_run_ending_at_is_maximal(dates: Seq<Date>, k: int, interval: int)
    requires
        0 <= k < dates.len(),
    ensures
        1 <= spec_run_ending_at(dates, k, interval) <= k + 1,
        is_run(dates, k + 1 - spec_run_ending_at(dates, k, interval), k, interval),
        k + 1 - spec_run_ending_at(dates, k, interval) == 0 || gap_before(
            dates,
            k + 1 - spec_run_ending_at(dates, k, interval),
        ) > interval,
    decreases k,
{
    if k > 0 {
        lemma_run_ending_at_is_maximal(dates, k - 1, interval);
    }
}

/// No run that ends at `last` is longer than the one counted there.
pub proof fn lemma_run_within_counted(dates: Seq<Date>, first: int, last: int, interval: int)
    requires
        is_run(dates, first, last, interval),
    ensures
        last - first + 1 <= spec_run_ending_at(dates, last, interval),
    decreases last - first,
{
    if first < last {
        assert(gap_before(dates, last) <= interval);
        assert(is_run(dates, first, last - 1, interval));
        lemma_run_within_counted(dates, first, last - 1, interval);
    }
}

/// The longest streak among the first `n` days bounds the run counted at
/// each of them, and is the run counted at one of them.
pub proof fn lemma_longest_upto_bounds(dates: Seq<Date>, n: int, interval: int)
    requires
        0 <= n <= dates.len(),
    ensures
        spec_longest_upto(dates, n, interval) <= n,
        forall|k: int|
            0 <= k < n ==> #[trigger] spec_run_ending_at(dates, k, interval) <= spec_longest_upto(
                dates,
                n,
                interval,
            ),
        n > 0 ==> exists|k: int|
            0 <= k < n && #[trigger] spec_run_ending_at(dates, k, interval) == spec_longest_upto(
                dates,
                n,
                interval,
            ),
    decreases n,
{
    if n > 0 {
        lemma_longest_upto_bounds(dates, n - 1, interval);
        lemma_run_ending_at_is_maximal(dates, n - 1, interval);
        let here = spec_run_ending_at(dates, n - 1, interval);
        let earlier = spec_longest_upto(dates, n - 1, interval);
        if here > earlier {
            assert(spec_run_ending_at(dates, n - 1, interval) == spec_longest_upto(
                dates,
                n,
                interval,
            ));
        } else {
            assert(n - 1 > 0);
            let k = choose|k: int|
                0 <= k < n - 1 && #[trigger] spec_run_ending_at(dates, k, interval) == earlier;
            assert(0 <= k < n && spec_run_ending_at(dates, k, interval) == spec_longest_upto(
                dates,
                n,
                interval,
            ));
        }
    }
}

/// The longest streak is the length of the longest run: no run in the list
/// is longer, and a list with a day in it has a run of exactly that length.
pub proof fn lemma_longest_streak_is_longest_run(dates: Seq<Date>, interval: int)
    ensures
        forall|first: int, last: int| #[trigger]
            is_run(dates, first, last, interval) ==> last - first + 1 <= spec_longest_streak(
                dates,
                interval,
            ),
        dates.len() > 0 ==> exists|first: int, last: int| #[trigger]
            is_run(dates, first, last, interval) && last - first + 1 == spec_longest_streak(
                dates,
                interval,
            ),
        dates.len() == 0 ==> spec_longest_streak(dates, interval) == 0,
{
    let n = dates.len() as int;
    lemma_longest_upto_bounds(dates, n, interval);
    assert forall|first: int, last: int| #[trigger]
        is_run(dates, first, last, interval) implies last - first + 1 <= spec_longest_streak(
        dates,
        interval,
    ) by {
        lemma_run_within_counted(dates, first, last, interval);
        assert(spec_run_ending_at(dates, last, interval) <= spec_longest_upto(dates, n, interval));
    }
    if n > 0 {
        let k = choose|k: int|
            0 <= k < n && #[trigger] spec_run_ending_at(dates, k, interval) == spec_longest_upto(
                dates,
                n,
                interval,
            );
        lemma_run_ending_at_is_maximal(dates, k, interval);
        let first = k + 1 - spec_run_ending_at(dates, k, interval);
        assert(is_run(dates, first, k, interval) && k - first + 1 == spec_longest_streak(
            dates,
            interval,
        ));
    }
}

/// The widest gap among the first `n` days is absent exactly below two days;
/// otherwise it is the gap before one of them and no gap is wider.
pub proof fn lemma_longest_gap_upto_is_widest(dates: Seq<Date>, n: int)
    requires
        0 <= n <= dates.len(),
    ensures
        spec_longest_gap_upto(dates, n) is None <==> n <= 1,
        spec_longest_gap_upto(dates, n) matches Some(widest) ==> {
            &&& forall|k: int| 1 <= k < n ==> #[trigger] gap_before(dates, k) <= widest
            &&& exists|k: int| 1 <= k < n && #[trigger] gap_before(dates, k) == widest
        },
    decreases n,
{
    if n > 1 {
        lemma_longest_gap_upto_is_widest(dates, n - 1);
        let widest = spec_longest_gap_upto(dates, n).unwrap();
        if widest == gap_before(dates, n - 1) {
            assert(1 <= n - 1 < n && gap_before(dates, n - 1) == widest);
        } else {
            let k = choose|k: int| 1 <= k < n - 1 && #[trigger] gap_before(dates, k) == widest;
            assert(1 <= k < n && gap_before(dates, k) == widest);
        }
    }
}

/// The widest gap of the whole list is the widest distance between two
/// neighbouring days; a list of fewer than two days has none.
pub proof fn lemma_longest_gap_is_widest(dates: Seq<Date>)
    ensures
        spec_longest_gap(dates) is None <==> dates.len() <= 1,
        spec_longest_gap(dates) matches Some(widest) ==> {
            &&& forall|k: int| 1 <= k < dates.len() ==> #[trigger] gap_before(dates, k) <= widest
            &&& exists|k: int| 1 <= k < dates.len() && #[trigger] gap_before(dates, k) == widest
        },
{
    lemma_longest_gap_upto_is_widest(dates, dates.len() as int);
}

/// A last training day further back than the tolerance leaves no current
/// streak, whatever the history; the longest streak and the widest gap do
/// not depend on today at all. The current streak never exceeds the longest.
pub proof fn lemma_current_streak_bounds(dates: Seq<Date>, interval: int, today: Date)
    ensures
        dates.len() > 0 && today.days - dates.last().days > interval ==> spec_current_streak(
            dates,
            interval,
            today,
        ) == 0,
        spec_current_streak(dates, interval, today) <= spec_longest_streak(dates, interval),
        dates.len() > 0 ==> spec_longest_streak(dates, interval) >= 1,
{
    let n = dates.len() as int;
    lemma_longest_upto_bounds(dates, n, interval);
    if n > 0 {
        lemma_run_ending_at_is_maximal(dates, n - 1, interval);
        assert(spec_run_ending_at(dates, n - 1, interval) <= spec_longest_upto(dates, n, interval));
    }
}

/// Scans the training days once and returns the current streak as of
/// `today`, the longest streak and the widest gap. Two neighbouring days
/// continue a run when they lie at most `interval_days` apart.
pub fn compute_streaks(dates: &Vec<Date>, interval_days: u32, today: Date) -> (r: StreakSummary)
    ensures
        r.current_streak == spec_current_streak(dates@, interval_days as int, today),
        r.longest_streak == spec_longest_streak(dates@, interval_days as int),
        match r.longest_gap_days {
            Some(widest) => spec_longest_gap(dates@) == Some(widest as int),
            None => spec_longest_gap(dates@) is None,
        },
{
    let n = dates.len();
    if n == 0 {
        return StreakSummary { current_streak: 0, longest_streak: 0, longest_gap_days: None };
    }
    let tolerance = interval_days as i64;
    let mut run: usize = 1;
    let mut longest: usize = 1;
    let mut widest: Option<i64> = None;
    let mut k: usize = 1;
    assert(spec_longest_upto(dates@, 1, interval_days as int) == 1) by {
        assert(spec_longest_upto(dates@, 0, interval_days as int) == 0);
    }
    while k < n
        invariant
            n == dates.len(),
            tolerance == interval_days,
            1 <= k <= n,
            1 <= run <= k,
            run == spec_run_ending_at(dates@, k - 1, interval_days as int),
            longest == spec_longest_upto(dates@, k as int, interval_days as int),
            longest <= k,
            match widest {
                Some(w) => spec_longest_gap_upto(dates@, k as int) == Some(w as int),
                None => spec_longest_gap_upto(dates@, k as int) is None,
            },
        decreases n - k,
    {
        let gap = dates[k].days_since(dates[k - 1]);
        assert(gap == gap_before(dates@, k as int));
        if gap <= tolerance {
            run = run + 1;
        } else {
            run = 1;
        }
        if run > longest {
            longest = run;
        }
        widest =
        match widest {
            Some(w) if w >= gap => Some(w),
            _ => Some(gap),
        };
        k = k + 1;
    }
    let current = if today.days_since(dates[n - 1]) <= tolerance {
        run
    } else {
        0
    };
    StreakSummary { current_streak: current, longest_streak: longest, longest_gap_days: widest }
}

} // verus!
