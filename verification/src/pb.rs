//! Personal bests: the best value of each metric in an exercise's history,
//! and whether a new workout beats it.

use crate::model::{spec_metric_value, Metric, Workout};
use crate::quantity::{max_opt, spec_max_opt};
use vstd::prelude::*;

verus! {

/// What a new workout did to the best of one metric.
#[derive(Clone, Copy, Debug, PartialEq, Eq)]
pub struct PbMetricInfo<T> {
    pub achieved: bool,
    pub new_value: Option<T>,
    pub previous_value: Option<T>,
}

/// What a new workout did to the best of each metric.
#[derive(Clone, Copy, Debug, PartialEq, Eq)]
pub struct PBInfo {
    pub weight: PbMetricInfo<i64>,
    pub reps: PbMetricInfo<i64>,
    pub duration: PbMetricInfo<i64>,
    pub distance: PbMetricInfo<i64>,
}

/// The best value of each metric over an exercise's whole history.
#[derive(Clone, Copy, Debug, PartialEq, Eq, Structural)]
pub struct PersonalBests {
    pub max_weight: Option<i64>,
    pub max_reps: Option<i64>,
    pub max_duration_minutes: Option<i64>,
    pub max_distance: Option<i64>,
}

/// Whether a workout belongs to the history of the exercise called `name`,
/// the record with id `excluded` left out.
pub open spec fn counts_for(w: Workout, name: Seq<char>, excluded: Option<i64>) -> bool {
    w.exercise_name@ == name && excluded != Some(w.id)
}

/// The best value of `metric` among the first `n` workouts of `history` that
/// count for the exercise, or `None` where none of them logs the metric.
pub open spec fn spec_best_upto(
    history: Seq<Workout>,
    n: int,
    name: Seq<char>,
    excluded: Option<i64>,
    metric: Metric,
) -> Option<i64>
    decreases n,
{
    if n <= 0 {
        None
    } else {
        let earlier = spec_best_upto(history, n - 1, name, excluded, metric);
        if counts_for(history[n - 1], name, excluded) {
            spec_max_opt(earlier, spec_metric_value(history[n - 1], metric))
        } else {
            earlier
        }
    }
}

/// The best value of `metric` in the history of the exercise called `name`.
pub open spec fn spec_best(
    history: Seq<Workout>,
    name: Seq<char>,
    excluded: Option<i64>,
    metric: Metric,
) -> Option<i64> {
    spec_best_upto(history, history.len() as int, name, excluded, metric)
}

/// The best value of `metric` before `new` was logged: over every other
/// workout of the same exercise.
pub open spec fn spec_previous_max(history: Seq<Workout>, new: Workout, metric: Metric) -> Option<
    i64,
> {
    spec_best(history, new.exercise_name@, Some(new.id), metric)
}

/// How a new value stands against the previous best: a best is achieved by a
/// present value that is strictly greater than the previous best, or that is
/// the first ever.
pub open spec fn spec_compare(previous: Option<i64>, new_value: Option<i64>) -> PbMetricInfo<i64> {
    PbMetricInfo {
        achieved: match new_value {
            Some(v) => match previous {
                Some(p) => v > p,
                None => true,
            },
            None => false,
        },
        new_value,
        previous_value: previous,
    }
}

/// What `new` did to the best of each metric, given the log it was added to.
pub open spec fn spec_detect_pb(history: Seq<Workout>, new: Workout) -> PBInfo {
    PBInfo {
        weight: spec_compare(
            spec_previous_max(history, new, Metric::Weight),
            spec_metric_value(new, Metric::Weight),
        ),
        reps: spec_compare(
            spec_previous_max(history, new, Metric::Reps),
            spec_metric_value(new, Metric::Reps),
        ),
        duration: spec_compare(
            spec_previous_max(history, new, Metric::Duration),
            spec_metric_value(new, Metric::Duration),
        ),
        distance: spec_compare(
            spec_previous_max(history, new, Metric::Distance),
            spec_metric_value(new, Metric::Distance),
        ),
    }
}

/// The all-time bests of the exercise called `name`.
pub open spec fn spec_personal_bests(history: Seq<Workout>, name: Seq<char>) -> PersonalBests {
    PersonalBests {
        max_weight: spec_best(history, name, None, Metric::Weight),
        max_reps: spec_best(history, name, None, Metric::Reps),
        max_duration_minutes: spec_best(history, name, None, Metric::Duration),
        max_distance: spec_best(history, name, None, Metric::Distance),
    }
}

/// The best over a prefix is the maximum of the values logged in it: it is
/// absent exactly when no counting workout logs the metric, and otherwise it
/// is logged by some counting workout and no counting workout logs more.
pub proof fn lemma_best_upto_is_maximum(
    history: Seq<Workout>,
    n: int,
    name: Seq<char>,
    excluded: Option<i64>,
    metric: Metric,
)
    requires
        0 <= n <= history.len(),
    ensures
        spec_best_upto(history, n, name, excluded, metric) is None <==> forall|i: int|
            0 <= i < n && counts_for(#[trigger] history[i], name, excluded) ==> spec_metric_value(
                history[i],
                metric,
            ) is None,
        spec_best_upto(history, n, name, excluded, metric) matches Some(best) ==> {
            &&& exists|i: int|
                0 <= i < n && counts_for(#[trigger] history[i], name, excluded)
                    && spec_metric_value(history[i], metric) == Some(best)
            &&& forall|i: int|
                0 <= i < n && counts_for(#[trigger] history[i], name, excluded) ==> (
                spec_metric_value(history[i], metric) matches Some(v) ==> v <= best)
        },
    decreases n,
{
    if n > 0 {
        lemma_best_upto_is_maximum(history, n - 1, name, excluded, metric);
        let earlier = spec_best_upto(history, n - 1, name, excluded, metric);
        let now = spec_best_upto(history, n, name, excluded, metric);
        let last = history[n - 1];
        if let Some(best) = now {
            if counts_for(last, name, excluded) && spec_metric_value(last, metric) == Some(best) {
                assert(counts_for(history[n - 1], name, excluded));
            } else {
                assert(earlier == Some(best));
                let i = choose|i: int|
                    0 <= i < n - 1 && counts_for(#[trigger] history[i], name, excluded)
                        && spec_metric_value(history[i], metric) == Some(best);
                assert(0 <= i < n && counts_for(history[i], name, excluded));
            }
        }
    }
}

/// The best over the whole history is the maximum of the values logged by
/// the workouts that count for the exercise.
pub proof fn lemma_best_is_maximum(
    history: Seq<Workout>,
    name: Seq<char>,
    excluded: Option<i64>,
    metric: Metric,
)
    ensures
        spec_best(history, name, excluded, metric) is None <==> forall|i: int|
            0 <= i < history.len() && counts_for(#[trigger] history[i], name, excluded)
                ==> spec_metric_value(history[i], metric) is None,
        spec_best(history, name, excluded, metric) matches Some(best) ==> {
            &&& exists|i: int|
                0 <= i < history.len() && counts_for(#[trigger] history[i], name, excluded)
                    && spec_metric_value(history[i], metric) == Some(best)
            &&& forall|i: int|
                0 <= i < history.len() && counts_for(#[trigger] history[i], name, excluded) ==> (
                spec_metric_value(history[i], metric) matches Some(v) ==> v <= best)
        },
{
    lemma_best_upto_is_maximum(history, history.len() as int, name, excluded, metric);
}

/// A value equal to the previous best achieves nothing; a value one above
/// it, or any value where there was no best, achieves a best.
pub proof fn lemma_compare_is_strict(previous: Option<i64>, new_value: i64)
    ensures
        previous == Some(new_value) ==> !spec_compare(previous, Some(new_value)).achieved,
        previous is None ==> spec_compare(previous, Some(new_value)).achieved,
        previous matches Some(p) ==> (spec_compare(previous, Some(new_value)).achieved <==> new_value
            > p),
        spec_compare(previous, None).achieved == false,
{
}

/// A new workout achieves a best in a metric exactly when it logs a value
/// for it that is greater than every value that any other workout of the
/// same exercise logs for it.
pub proof fn lemma_achieved_beats_history(history: Seq<Workout>, new: Workout, metric: Metric)
    ensures
        spec_compare(
            spec_previous_max(history, new, metric),
            spec_metric_value(new, metric),
        ).achieved <==> (spec_metric_value(new, metric) matches Some(value) && forall|i: int|
            0 <= i < history.len() && counts_for(
                #[trigger] history[i],
                new.exercise_name@,
                Some(new.id),
            ) ==> (spec_metric_value(history[i], metric) matches Some(v) ==> v < value)),
{
    lemma_best_is_maximum(history, new.exercise_name@, Some(new.id), metric);
}

/// The best value of `metric` in the history of the exercise called `name`,
/// the record with id `excluded` left out.
pub fn best_of(history: &Vec<Workout>, name: &String, excluded: Option<i64>, metric: Metric) -> (r:
    Option<i64>)
    ensures
        r == spec_best(history@, name@, excluded, metric),
{
    let mut best: Option<i64> = None;
    let mut i: usize = 0;
    while i < history.len()
        invariant
            0 <= i <= history.len(),
            best == spec_best_upto(history@, i as int, name@, excluded, metric),
        decreases history.len() - i,
    {
        let w = &history[i];
        let skipped = match excluded {
            Some(id) => w.id == id,
            None => false,
        };
        if w.exercise_name == *name && !skipped {
            best = max_opt(best, w.metric_value(metric));
        }
        i += 1;
    }
    best
}

/// How a new value stands against the previous best.
pub fn compare_metric(previous: Option<i64>, new_value: Option<i64>) -> (r: PbMetricInfo<i64>)
    ensures
        r == spec_compare(previous, new_value),
{
    let achieved = match new_value {
        Some(v) => match previous {
            Some(p) => v > p,
            None => true,
        },
        None => false,
    };
    PbMetricInfo { achieved, new_value, previous_value: previous }
}

/// Compares a newly logged workout with every other workout of the same
/// exercise in `history`, metric by metric. `history` may or may not hold
/// the new record already: a workout with the id of `new` is never counted.
pub fn detect_pb(history: &Vec<Workout>, new: &Workout) -> (r: PBInfo)
    ensures
        r == spec_detect_pb(history@, *new),
{
    let excluded = Some(new.id);
    PBInfo {
        weight: compare_metric(
            best_of(history, &new.exercise_name, excluded, Metric::Weight),
            new.metric_value(Metric::Weight),
        ),
        reps: compare_metric(
            best_of(history, &new.exercise_name, excluded, Metric::Reps),
            new.metric_value(Metric::Reps),
        ),
        duration: compare_metric(
            best_of(history, &new.exercise_name, excluded, Metric::Duration),
            new.metric_value(Metric::Duration),
        ),
        distance: compare_metric(
            best_of(history, &new.exercise_name, excluded, Metric::Distance),
            new.metric_value(Metric::Distance),
        ),
    }
}

/// The all-time bests of the exercise called `name`.
pub fn personal_bests(history: &Vec<Workout>, name: &String) -> (r: PersonalBests)
    ensures
        r == spec_personal_bests(history@, name@),
{
    PersonalBests {
        max_weight: best_of(history, name, None, Metric::Weight),
        max_reps: best_of(history, name, None, Metric::Reps),
        max_duration_minutes: best_of(history, name, None, Metric::Duration),
        max_distance: best_of(history, name, None, Metric::Distance),
    }
}

} // verus!
