//! The statistics of one exercise, assembled from its whole history.

use crate::calendar::{lemma_training_days, spec_training_days, strictly_ascending, training_days};
use crate::catalog::{spec_resolve, Catalog};
use crate::date::Date;
use crate::error::TrackerError;
use crate::model::Workout;
use crate::pb::{personal_bests, spec_personal_bests, PersonalBests};
use crate::streak::{
    compute_streaks, spec_current_streak, spec_longest_gap, spec_longest_streak,
};
use vstd::prelude::*;
use vstd::string::StringExecFns;

verus! {

/// An average number of workouts per week, held exactly: `workouts` workouts
/// over `span_days` days, which is seven times `workouts` divided by
/// `span_days` per week. `span_days` is at least one.
#[derive(Clone, Copy, Debug, PartialEq, Eq, Structural)]
pub struct WeeklyAverage {
    pub workouts: usize,
    pub span_days: i64,
}

/// The statistics of one exercise.
#[derive(Clone, Debug, PartialEq, Eq)]
pub struct ExerciseStats {
    pub canonical_name: String,
    pub total_workouts: usize,
    pub first_workout_date: Option<Date>,
    pub last_workout_date: Option<Date>,
    /// Absent where every workout fell on one day: no span to average over.
    pub avg_workouts_per_week: Option<WeeklyAverage>,
    pub longest_gap_days: Option<i64>,
    pub streak_interval_days: u32,
    pub current_streak: usize,
    pub longest_streak: usize,
    pub personal_bests: PersonalBests,
}

/// The days of the workouts of the exercise called `name` among the first
/// `n` of the log, in log order.
pub open spec fn spec_named_dates(workouts: Seq<Workout>, name: Seq<char>, n: int) -> Seq<Date>
    decreases n,
{
    if n <= 0 {
        Seq::empty()
    } else if workouts[n - 1].exercise_name@ == name {
        spec_named_dates(workouts, name, n - 1).push(workouts[n - 1].date)
    } else {
        spec_named_dates(workouts, name, n - 1)
    }
}

/// The average per week of `total` workouts between two days, or `None`
/// where the two are the same day.
pub open spec fn spec_weekly_average(total: nat, first: Date, last: Date) -> Option<WeeklyAverage> {
    if last.days - first.days <= 0 {
        None
    } else {
        Some(WeeklyAverage { workouts: total as usize, span_days: (last.days - first.days) as i64 })
    }
}

/// Whether `stats` are the statistics of the exercise called `name`, which
/// has a workout in the log, for a streak tolerance of `interval` days as of
/// `today`.
pub open spec fn is_stats_of(
    stats: ExerciseStats,
    workouts: Seq<Workout>,
    name: Seq<char>,
    interval: u32,
    today: Date,
) -> bool {
    let dates = spec_named_dates(workouts, name, workouts.len() as int);
    let days = spec_training_days(dates);
    &&& dates.len() > 0
    &&& days.len() > 0
    &&& stats.canonical_name@ == name
    &&& stats.total_workouts == dates.len()
    &&& stats.first_workout_date == Some(days.first())
    &&& stats.last_workout_date == Some(days.last())
    &&& stats.avg_workouts_per_week == spec_weekly_average(dates.len(), days.first(), days.last())
    &&& match stats.longest_gap_days {
        Some(widest) => spec_longest_gap(days) == Some(widest as int),
        None => spec_longest_gap(days) is None,
    }
    &&& stats.streak_interval_days == interval
    &&& stats.current_streak == spec_current_streak(days, interval as int, today)
    &&& stats.longest_streak == spec_longest_streak(days, interval as int)
    &&& stats.personal_bests == spec_personal_bests(workouts, name)
}

/// The days of an exercise are the days of the workouts that carry its
/// name.
pub proof fn lemma_named_dates(workouts: Seq<Workout>, name: Seq<char>, n: int, day: Date)
    requires
        0 <= n <= workouts.len(),
    ensures
        spec_named_dates(workouts, name, n).len() <= n,
        spec_named_dates(workouts, name, n).contains(day) <==> exists|i: int|
            0 <= i < n && (#[trigger] workouts[i]).exercise_name@ == name && workouts[i].date
                == day,
    decreases n,
{
    if n > 0 {
        lemma_named_dates(workouts, name, n - 1, day);
        let earlier = spec_named_dates(workouts, name, n - 1);
        let now = spec_named_dates(workouts, name, n);
        if workouts[n - 1].exercise_name@ == name {
            if now.contains(day) {
                let k = choose|k: int| 0 <= k < now.len() && now[k] == day;
                if k < earlier.len() {
                    assert(earlier[k] == day);
                    assert(earlier.contains(day));
                    let i = choose|i: int|
                        0 <= i < n - 1 && (#[trigger] workouts[i]).exercise_name@ == name
                            && workouts[i].date == day;
                    assert(0 <= i < n && workouts[i].exercise_name@ == name && workouts[i].date
                        == day);
                } else {
                    assert(workouts[n - 1].exercise_name@ == name && workouts[n - 1].date == day);
                }
            }
            if exists|i: int|
                0 <= i < n && (#[trigger] workouts[i]).exercise_name@ == name && workouts[i].date
                    == day {
                let i = choose|i: int|
                    0 <= i < n && (#[trigger] workouts[i]).exercise_name@ == name
                        && workouts[i].date == day;
                if i < n - 1 {
                    assert(earlier.contains(day));
                    let k = choose|k: int| 0 <= k < earlier.len() && earlier[k] == day;
                    assert(now[k] == day);
                } else {
                    assert(now[now.len() - 1] == day);
                }
            }
        } else {
            if exists|i: int|
                0 <= i < n && (#[trigger] workouts[i]).exercise_name@ == name && workouts[i].date
                    == day {
                let i = choose|i: int|
                    0 <= i < n && (#[trigger] workouts[i]).exercise_name@ == name
                        && workouts[i].date == day;
                assert(0 <= i < n - 1 && workouts[i].exercise_name@ == name && workouts[i].date
                    == day);
            }
            if earlier.contains(day) {
                let i = choose|i: int|
                    0 <= i < n - 1 && (#[trigger] workouts[i]).exercise_name@ == name
                        && workouts[i].date == day;
                assert(0 <= i < n && workouts[i].exercise_name@ == name && workouts[i].date
                    == day);
            }
        }
    } else {
        assert(!spec_named_dates(workouts, name, n).contains(day));
    }
}

/// The first and the last workout date of the statistics are the earliest
/// and the latest day on which the exercise was trained.
pub proof fn lemma_first_and_last(workouts: Seq<Workout>, name: Seq<char>)
    requires
        spec_named_dates(workouts, name, workouts.len() as int).len() > 0,
    ensures
        spec_training_days(spec_named_dates(workouts, name, workouts.len() as int)).len() > 0,
        forall|i: int|
            0 <= i < workouts.len() && (#[trigger] workouts[i]).exercise_name@ == name ==> {
                &&& spec_training_days(
                    spec_named_dates(workouts, name, workouts.len() as int),
                ).first().days <= workouts[i].date.days
                &&& workouts[i].date.days <= spec_training_days(
                    spec_named_dates(workouts, name, workouts.len() as int),
                ).last().days
            },
        exists|i: int|
            0 <= i < workouts.len() && (#[trigger] workouts[i]).exercise_name@ == name
                && workouts[i].date == spec_training_days(
                spec_named_dates(workouts, name, workouts.len() as int),
            ).first(),
        exists|i: int|
            0 <= i < workouts.len() && (#[trigger] workouts[i]).exercise_name@ == name
                && workouts[i].date == spec_training_days(
                spec_named_dates(workouts, name, workouts.len() as int),
            ).last(),
{
    let n = workouts.len() as int;
    let dates = spec_named_dates(workouts, name, n);
    let days = spec_training_days(dates);
    lemma_training_days(dates);
    assert(dates.contains(dates[0]));
    assert(days.contains(dates[0]));
    assert(days.len() > 0);
    assert forall|i: int|
        0 <= i < workouts.len() && (#[trigger] workouts[i]).exercise_name@ == name implies days.first().days
        <= workouts[i].date.days && workouts[i].date.days <= days.last().days by {
        lemma_named_dates(workouts, name, n, workouts[i].date);
        assert(dates.contains(workouts[i].date));
        assert(days.contains(workouts[i].date));
        let k = choose|k: int| 0 <= k < days.len() && days[k] == workouts[i].date;
        assert(days[0].days <= days[k].days);
        assert(days[k].days <= days[days.len() - 1].days);
    }
    assert(days.contains(days.first()));
    assert(dates.contains(days.first()));
    lemma_named_dates(workouts, name, n, days.first());
    assert(days.contains(days.last()));
    assert(dates.contains(days.last()));
    lemma_named_dates(workouts, name, n, days.last());
}

/// The days of the workouts of the exercise called `name`, in log order.
pub fn named_dates(workouts: &Vec<Workout>, name: &String) -> (r: Vec<Date>)
    ensures
        r@ == spec_named_dates(workouts@, name@, workouts.len() as int),
{
    let mut dates: Vec<Date> = Vec::new();
    let mut i: usize = 0;
    while i < workouts.len()
        invariant
            0 <= i <= workouts.len(),
            dates@ == spec_named_dates(workouts@, name@, i as int),
        decreases workouts.len() - i,
    {
        if workouts[i].exercise_name == *name {
            dates.push(workouts[i].date);
        }
        i = i + 1;
    }
    dates
}

/// The statistics of the exercise called `name`, or `None` where the log
/// holds no workout of it.
pub fn stats_for_name(workouts: &Vec<Workout>, name: &String, interval_days: u32, today: Date) -> (r:
    Option<ExerciseStats>)
    ensures
        match r {
            Some(stats) => is_stats_of(stats, workouts@, name@, interval_days, today),
            None => spec_named_dates(workouts@, name@, workouts.len() as int).len() == 0,
        },
{
    let dates = named_dates(workouts, name);
    if dates.len() == 0 {
        return None;
    }
    let days = training_days(&dates);
    proof {
        assert(dates@.contains(dates@[0]));
        assert(days@.contains(dates@[0]));
    }
    let first = days[0];
    let last = days[days.len() - 1];
    let span = last.days_since(first);
    let average = if span <= 0 {
        None
    } else {
        Some(WeeklyAverage { workouts: dates.len(), span_days: span })
    };
    let streaks = compute_streaks(&days, interval_days, today);
    Some(
        ExerciseStats {
            canonical_name: name.clone(),
            total_workouts: dates.len(),
            first_workout_date: Some(first),
            last_workout_date: Some(last),
            avg_workouts_per_week: average,
            longest_gap_days: streaks.longest_gap_days,
            streak_interval_days: interval_days,
            current_streak: streaks.current_streak,
            longest_streak: streaks.longest_streak,
            personal_bests: personal_bests(workouts, name),
        },
    )
}

/// The statistics of the exercise that `identifier` stands for, over the
/// workouts that carry its name. Fails with `ExerciseNotFound` where the
/// identifier stands for no exercise, and with `NoWorkoutDataFound` where
/// the exercise has no workout in the log.
pub fn compute_stats(
    catalog: &Catalog,
    workouts: &Vec<Workout>,
    identifier: &str,
    interval_days: u32,
    today: Date,
) -> (r: Result<ExerciseStats, TrackerError>)
    ensures
        match r {
            Ok(stats) => (catalog.spec_resolve(identifier@) matches Some(k) && is_stats_of(
                stats,
                workouts@,
                catalog.exercises@[k].name@,
                interval_days,
                today,
            )),
            Err(TrackerError::ExerciseNotFound(text)) => catalog.spec_resolve(identifier@) is None
                && text@ == identifier@,
            Err(TrackerError::NoWorkoutDataFound(text)) => (catalog.spec_resolve(
                identifier@,
            ) matches Some(k) && text@ == catalog.exercises@[k].name@ && spec_named_dates(
                workouts@,
                catalog.exercises@[k].name@,
                workouts.len() as int,
            ).len() == 0),
            Err(_) => false,
        },
{
    let k = match catalog.resolve_index(identifier) {
        Some(k) => k,
        None => {
            return Err(TrackerError::ExerciseNotFound(String::from_str(identifier)));
        },
    };
    let name = &catalog.exercises[k].name;
    match stats_for_name(workouts, name, interval_days, today) {
        Some(stats) => Ok(stats),
        None => Err(TrackerError::NoWorkoutDataFound(name.clone())),
    }
}

} // verus!
