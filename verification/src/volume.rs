//! Daily training volume: sets times reps times effective weight, summed
//! per exercise and day over the workouts that pass a filter.

use crate::calendar::{spec_training_days, training_days};
use crate::catalog::{lists_muscle, spec_lists_muscle, spec_resolve, Catalog};
use crate::date::Date;
use crate::error::TrackerError;
use crate::model::{spec_effective_weight, Alias, ExerciseDefinition, ExerciseType, Workout};
use crate::quantity::{clamp_i64, or_zero, saturate, saturating_product3};
use crate::text::{lowercase, same_ignoring_case, std_to_lowercase};
use vstd::prelude::*;
use vstd::string::StringExecFns;

verus! {

/// Which workouts count towards the volume. Every condition that is present
/// must hold; an absent one lets every workout pass.
#[derive(Clone, Debug, PartialEq, Eq)]
pub struct VolumeFilters {
    /// An id, name or alias; only workouts of that exercise pass.
    pub exercise_name: Option<String>,
    /// Only workouts logged with this exercise type pass.
    pub exercise_type: Option<ExerciseType>,
    /// Only workouts of exercises that list this muscle pass, letter case
    /// aside.
    pub muscle: Option<String>,
    /// Only workouts on or after this day pass.
    pub start_date: Option<Date>,
    /// Only workouts on or before this day pass.
    pub end_date: Option<Date>,
    /// Only the most recent so many training days are reported.
    pub limit_days: Option<u32>,
}

/// The volume of one exercise on one day.
#[derive(Clone, Debug, PartialEq, Eq)]
pub struct VolumeRow {
    pub date: Date,
    pub exercise_name: String,
    /// Thousandths of the weight unit.
    pub volume: i64,
}

/// A row as plain values: the day, the exercise's name and the volume.
pub open spec fn row_view(row: VolumeRow) -> (Date, Seq<char>, i64) {
    (row.date, row.exercise_name@, row.volume)
}

/// Whether `rows` holds exactly the rows of `model`, in order.
pub open spec fn rows_match(rows: Seq<VolumeRow>, model: Seq<(Date, Seq<char>, i64)>) -> bool {
    &&& rows.len() == model.len()
    &&& forall|k: int| 0 <= k < rows.len() ==> row_view(#[trigger] rows[k]) == model[k]
}

/// The volume of one workout: sets times reps times effective weight, a
/// missing factor counting as zero, brought into the range of `i64`.
pub open spec fn spec_workout_volume(w: Workout) -> i64 {
    clamp_i64(or_zero(w.sets) * or_zero(w.reps) * or_zero(spec_effective_weight(w)))
}

/// Whether the exercise that `name` stands for lists `muscle` among its
/// target muscles, letter case aside.
pub open spec fn spec_targets_muscle(
    exercises: Seq<ExerciseDefinition>,
    aliases: Seq<Alias>,
    name: Seq<char>,
    muscle: Seq<char>,
) -> bool {
    match spec_resolve(exercises, aliases, name) {
        Some(k) => spec_lists_muscle(exercises[k], muscle),
        None => false,
    }
}

/// Whether a workout passes the filter. `target` is the index of the
/// exercise that the filter's identifier stands for, where it names one.
pub open spec fn spec_passes(
    exercises: Seq<ExerciseDefinition>,
    aliases: Seq<Alias>,
    w: Workout,
    target: Option<int>,
    filters: VolumeFilters,
) -> bool {
    &&& target is Some ==> spec_resolve(exercises, aliases, w.exercise_name@) == target
    &&& filters.exercise_type is Some ==> w.exercise_type == filters.exercise_type
    &&& (filters.muscle matches Some(muscle) ==> spec_targets_muscle(
        exercises,
        aliases,
        w.exercise_name@,
        muscle@,
    ))
    &&& (filters.start_date matches Some(first) ==> first.days <= w.date.days)
    &&& (filters.end_date matches Some(last) ==> w.date.days <= last.days)
}

/// For each workout, whether it passes the filter.
pub open spec fn spec_selection(
    exercises: Seq<ExerciseDefinition>,
    aliases: Seq<Alias>,
    workouts: Seq<Workout>,
    target: Option<int>,
    filters: VolumeFilters,
) -> Seq<bool> {
    Seq::new(workouts.len(), |i: int| spec_passes(exercises, aliases, workouts[i], target, filters))
}

/// The days of the selected workouts among the first `n`, in log order.
pub open spec fn spec_kept_dates(workouts: Seq<Workout>, keep: Seq<bool>, n: int) -> Seq<Date>
    decreases n,
{
    if n <= 0 {
        Seq::empty()
    } else if keep[n - 1] {
        spec_kept_dates(workouts, keep, n - 1).push(workouts[n - 1].date)
    } else {
        spec_kept_dates(workouts, keep, n - 1)
    }
}

/// The names under which exercises were trained on `day` among the first
/// `n` workouts, each once, in the order of their first selected workout.
pub open spec fn spec_day_names(workouts: Seq<Workout>, keep: Seq<bool>, day: Date, n: int) -> Seq<
    Seq<char>,
>
    decreases n,
{
    if n <= 0 {
        Seq::empty()
    } else {
        let earlier = spec_day_names(workouts, keep, day, n - 1);
        if keep[n - 1] && workouts[n - 1].date == day && !earlier.contains(
            workouts[n - 1].exercise_name@,
        ) {
            earlier.push(workouts[n - 1].exercise_name@)
        } else {
            earlier
        }
    }
}

/// The exact sum of the volumes of the selected workouts of the exercise
/// called `name` on `day`, among the first `n` workouts.
pub open spec fn spec_group_total(
    workouts: Seq<Workout>,
    keep: Seq<bool>,
    day: Date,
    name: Seq<char>,
    n: int,
) -> int
    decreases n,
{
    if n <= 0 {
        0
    } else {
        spec_group_total(workouts, keep, day, name, n - 1) + if keep[n - 1] && workouts[n
            - 1].date == day && workouts[n - 1].exercise_name@ == name {
            spec_workout_volume(workouts[n - 1]) as int
        } else {
            0
        }
    }
}

/// The rows of one day: one per exercise trained on it, in the order of
/// first appearance in the log, each with the day's total for the exercise.
pub open spec fn spec_day_rows(workouts: Seq<Workout>, keep: Seq<bool>, day: Date) -> Seq<
    (Date, Seq<char>, i64),
> {
    let names = spec_day_names(workouts, keep, day, workouts.len() as int);
    Seq::new(
        names.len(),
        |g: int|
            (
                day,
                names[g],
                clamp_i64(spec_group_total(workouts, keep, day, names[g], workouts.len() as int)),
            ),
    )
}

/// The days to report, most recent first: every day with a selected
/// workout, or under a limit only that many of the most recent ones.
pub open spec fn spec_recent_days(workouts: Seq<Workout>, keep: Seq<bool>, limit: Option<u32>)
    -> Seq<Date> {
    let ascending = spec_training_days(spec_kept_dates(workouts, keep, workouts.len() as int));
    let count = match limit {
        Some(n) if n < ascending.len() => n as int,
        _ => ascending.len() as int,
    };
    Seq::new(count as nat, |r: int| ascending[ascending.len() - 1 - r])
}

/// The rows of the first `d` of `days`, day after day.
pub open spec fn spec_rows_upto(workouts: Seq<Workout>, keep: Seq<bool>, days: Seq<Date>, d: int)
    -> Seq<(Date, Seq<char>, i64)>
    decreases d,
{
    if d <= 0 {
        Seq::empty()
    } else {
        spec_rows_upto(workouts, keep, days, d - 1) + spec_day_rows(workouts, keep, days[d - 1])
    }
}

/// The volume table of the selected workouts: the days most recent first,
/// and within a day the exercises in the order of first appearance.
pub open spec fn spec_volume_rows(workouts: Seq<Workout>, keep: Seq<bool>, limit: Option<u32>)
    -> Seq<(Date, Seq<char>, i64)> {
    let days = spec_recent_days(workouts, keep, limit);
    spec_rows_upto(workouts, keep, days, days.len() as int)
}

/// The volume of one workout.
pub fn workout_volume(w: &Workout) -> (r: i64)
    ensures
        r == spec_workout_volume(*w),
{
    let sets = match w.sets {
        Some(v) => v,
        None => 0,
    };
    let reps = match w.reps {
        Some(v) => v,
        None => 0,
    };
    let weight = match w.calculate_effective_weight() {
        Some(v) => v,
        None => 0,
    };
    saturating_product3(sets, reps, weight)
}

/// A day's total for an exercise stays within the number of workouts times
/// the bound of a single volume.
proof fn lemma_group_total_bound(
    workouts: Seq<Workout>,
    keep: Seq<bool>,
    day: Date,
    name: Seq<char>,
    n: int,
)
    requires
        0 <= n,
    ensures
        -n * 0x8000_0000_0000_0000 <= spec_group_total(workouts, keep, day, name, n) <= n
            * 0x8000_0000_0000_0000,
    decreases n,
{
    if n > 0 {
        lemma_group_total_bound(workouts, keep, day, name, n - 1);
    }
}

/// The exact total of the selected workouts of the exercise called `name`
/// on `day`.
fn group_total(workouts: &Vec<Workout>, keep: &Vec<bool>, day: Date, name: &String) -> (r: i128)
    requires
        keep.len() == workouts.len(),
    ensures
        r == spec_group_total(workouts@, keep@, day, name@, workouts.len() as int),
{
    let mut total: i128 = 0;
    let mut i: usize = 0;
    while i < workouts.len()
        invariant
            keep.len() == workouts.len(),
            0 <= i <= workouts.len(),
            total == spec_group_total(workouts@, keep@, day, name@, i as int),
        decreases workouts.len() - i,
    {
        proof {
            lemma_group_total_bound(workouts@, keep@, day, name@, i as int);
        }
        if keep[i] && workouts[i].date == day && workouts[i].exercise_name == *name {
            total = total + workout_volume(&workouts[i]) as i128;
        }
        i = i + 1;
    }
    total
}

/// Whether one of the rows from `from` on is for the exercise called `name`.
fn has_row_named(rows: &Vec<VolumeRow>, from: usize, name: &String) -> (r: bool)
    requires
        from <= rows.len(),
    ensures
        r == exists|k: int| from <= k < rows.len() && (#[trigger] rows@[k]).exercise_name@ == name@,
{
    let mut k: usize = from;
    while k < rows.len()
        invariant
            from <= k <= rows.len(),
            forall|j: int| from <= j < k ==> (#[trigger] rows@[j]).exercise_name@ != name@,
        decreases rows.len() - k,
    {
        if rows[k].exercise_name == *name {
            return true;
        }
        k = k + 1;
    }
    false
}

/// Appends the rows of one day to `rows`.
fn append_day_rows(workouts: &Vec<Workout>, keep: &Vec<bool>, day: Date, rows: &mut Vec<VolumeRow>)
    requires
        keep.len() == workouts.len(),
    ensures
        final(rows)@.len() == old(rows)@.len() + spec_day_rows(workouts@, keep@, day).len(),
        forall|k: int| 0 <= k < old(rows)@.len() ==> #[trigger] final(rows)@[k] == old(rows)@[k],
        forall|g: int|
            0 <= g < spec_day_rows(workouts@, keep@, day).len() ==> row_view(
                #[trigger] final(rows)@[old(rows)@.len() + g],
            ) == spec_day_rows(workouts@, keep@, day)[g],
{
    let base = rows.len();
    let mut i: usize = 0;
    while i < workouts.len()
        invariant
            keep.len() == workouts.len(),
            base == old(rows)@.len(),
            0 <= i <= workouts.len(),
            rows@.len() == base + spec_day_names(workouts@, keep@, day, i as int).len(),
            forall|k: int| 0 <= k < base ==> #[trigger] rows@[k] == old(rows)@[k],
            forall|g: int|
                0 <= g < spec_day_names(workouts@, keep@, day, i as int).len() ==> row_view(
                    #[trigger] rows@[base + g],
                ) == (
                    day,
                    spec_day_names(workouts@, keep@, day, i as int)[g],
                    clamp_i64(
                        spec_group_total(
                            workouts@,
                            keep@,
                            day,
                            spec_day_names(workouts@, keep@, day, i as int)[g],
                            workouts.len() as int,
                        ),
                    ),
                ),
        decreases workouts.len() - i,
    {
        let ghost names = spec_day_names(workouts@, keep@, day, i as int);
        if keep[i] && workouts[i].date == day {
            let seen = has_row_named(rows, base, &workouts[i].exercise_name);
            proof {
                let name = workouts@[i as int].exercise_name@;
                if seen {
                    let k = choose|k: int|
                        base <= k < rows@.len() && (#[trigger] rows@[k]).exercise_name@ == name;
                    assert(row_view(rows@[base + (k - base)]).1 == names[k - base]);
                    assert(names[k - base] == name);
                }
                if names.contains(name) {
                    let g = choose|g: int| 0 <= g < names.len() && names[g] == name;
                    assert(row_view(rows@[base + g]).1 == names[g]);
                }
                assert(seen == names.contains(name));
            }
            if !seen {
                let total = group_total(workouts, keep, day, &workouts[i].exercise_name);
                let row = VolumeRow {
                    date: day,
                    exercise_name: workouts[i].exercise_name.clone(),
                    volume: saturate(total),
                };
                let ghost before = rows@;
                rows.push(row);
                proof {
                    let after = spec_day_names(workouts@, keep@, day, i as int + 1);
                    assert(after == names.push(workouts@[i as int].exercise_name@));
                    assert forall|g: int| 0 <= g < after.len() implies row_view(
                        #[trigger] rows@[base + g],
                    ) == (
                        day,
                        after[g],
                        clamp_i64(
                            spec_group_total(
                                workouts@,
                                keep@,
                                day,
                                after[g],
                                workouts.len() as int,
                            ),
                        ),
                    ) by {
                        if g < names.len() {
                            assert(rows@[base + g] == before[base + g]);
                            assert(after[g] == names[g]);
                        }
                    }
                }
            }
        }
        i = i + 1;
    }
}

/// The volume table of the workouts marked in `keep`.
pub fn aggregate_selected(workouts: &Vec<Workout>, keep: &Vec<bool>, limit_days: Option<u32>) -> (r:
    Vec<VolumeRow>)
    requires
        keep.len() == workouts.len(),
    ensures
        rows_match(r@, spec_volume_rows(workouts@, keep@, limit_days)),
{
    let mut dates: Vec<Date> = Vec::new();
    let mut i: usize = 0;
    while i < workouts.len()
        invariant
            keep.len() == workouts.len(),
            0 <= i <= workouts.len(),
            dates@ == spec_kept_dates(workouts@, keep@, i as int),
        decreases workouts.len() - i,
    {
        if keep[i] {
            dates.push(workouts[i].date);
        }
        i = i + 1;
    }
    let ascending = training_days(&dates);
    let count = match limit_days {
        Some(n) if (n as usize) < ascending.len() => n as usize,
        _ => ascending.len(),
    };
    let ghost days = spec_recent_days(workouts@, keep@, limit_days);
    assert(days.len() == count);
    let mut rows: Vec<VolumeRow> = Vec::new();
    let mut d: usize = 0;
    while d < count
        invariant
            keep.len() == workouts.len(),
            0 <= d <= count <= ascending.len(),
            days.len() == count,
            forall|r: int| 0 <= r < count ==> #[trigger] days[r] == ascending@[ascending.len() - 1 - r],
            rows_match(rows@, spec_rows_upto(workouts@, keep@, days, d as int)),
        decreases count - d,
    {
        let day = ascending[ascending.len() - 1 - d];
        let ghost before = rows@;
        append_day_rows(workouts, keep, day, &mut rows);
        proof {
            assert(days[d as int] == day);
            let model_before = spec_rows_upto(workouts@, keep@, days, d as int);
            let model = spec_rows_upto(workouts@, keep@, days, d as int + 1);
            assert(model == model_before + spec_day_rows(workouts@, keep@, day));
            assert forall|k: int| 0 <= k < rows@.len() implies row_view(#[trigger] rows@[k])
                == model[k] by {
                if k < before.len() {
                    assert(rows@[k] == before[k]);
                } else {
                    assert(rows@[before.len() + (k - before.len())] == rows@[k]);
                }
            }
        }
        d = d + 1;
    }
    rows
}

/// The index that the filter's identifier stands for, where it names an
/// exercise of the catalog.
pub open spec fn spec_filter_target(
    exercises: Seq<ExerciseDefinition>,
    aliases: Seq<Alias>,
    filters: VolumeFilters,
) -> Option<int> {
    match filters.exercise_name {
        Some(identifier) => spec_resolve(exercises, aliases, identifier@),
        None => None,
    }
}

/// Whether the filter names an exercise that the catalog does not know.
pub open spec fn spec_filter_unresolved(
    exercises: Seq<ExerciseDefinition>,
    aliases: Seq<Alias>,
    filters: VolumeFilters,
) -> bool {
    filters.exercise_name matches Some(identifier) && spec_resolve(exercises, aliases, identifier@)
        is None
}

/// An index as a mathematical integer.
pub open spec fn index_view(index: Option<usize>) -> Option<int> {
    match index {
        Some(k) => Some(k as int),
        None => None,
    }
}

/// Whether a workout passes the filter. `target` is the index of the
/// exercise that the filter's identifier stands for, where it names one.
pub fn passes(catalog: &Catalog, w: &Workout, target: Option<usize>, filters: &VolumeFilters) -> (r:
    bool)
    ensures
        r == spec_passes(catalog.exercises@, catalog.aliases@, *w, index_view(target), *filters),
{
    if let Some(first) = filters.start_date {
        if w.date.days < first.days {
            return false;
        }
    }
    if let Some(last) = filters.end_date {
        if w.date.days > last.days {
            return false;
        }
    }
    if let Some(wanted) = filters.exercise_type {
        let same = match w.exercise_type {
            Some(t) => t == wanted,
            None => false,
        };
        if !same {
            return false;
        }
    }
    if target.is_none() && filters.muscle.is_none() {
        return true;
    }
    let found = catalog.resolve_index(w.exercise_name.as_str());
    if let Some(k) = target {
        let same = match found {
            Some(f) => f == k,
            None => false,
        };
        if !same {
            return false;
        }
    }
    match &filters.muscle {
        Some(muscle) => {
            let wanted = std_to_lowercase(muscle.as_str());
            match found {
                Some(f) => lists_muscle(&catalog.exercises[f], &wanted),
                None => false,
            }
        },
        None => true,
    }
}

/// Marks the workouts that pass the filter. Fails where the filter names an
/// exercise that the catalog does not know.
pub fn select_workouts(catalog: &Catalog, workouts: &Vec<Workout>, filters: &VolumeFilters) -> (r:
    Result<Vec<bool>, TrackerError>)
    ensures
        match r {
            Ok(keep) => !spec_filter_unresolved(catalog.exercises@, catalog.aliases@, *filters)
                && keep@ == spec_selection(
                catalog.exercises@,
                catalog.aliases@,
                workouts@,
                spec_filter_target(catalog.exercises@, catalog.aliases@, *filters),
                *filters,
            ),
            Err(e) => spec_filter_unresolved(catalog.exercises@, catalog.aliases@, *filters) && (
            e matches TrackerError::ExerciseNotFound(text) && Some(text@) == (
            match filters.exercise_name {
                Some(identifier) => Some(identifier@),
                None => None,
            })),
        },
{
    let target = match &filters.exercise_name {
        Some(identifier) => {
            match catalog.resolve_index(identifier.as_str()) {
                Some(k) => Some(k),
                None => {
                    return Err(TrackerError::ExerciseNotFound(identifier.clone()));
                },
            }
        },
        None => None,
    };
    let mut keep: Vec<bool> = Vec::new();
    let mut i: usize = 0;
    while i < workouts.len()
        invariant
            0 <= i <= workouts.len(),
            keep@.len() == i,
            index_view(target) == spec_filter_target(
                catalog.exercises@,
                catalog.aliases@,
                *filters,
            ),
            forall|j: int|
                0 <= j < i ==> #[trigger] keep@[j] == spec_passes(
                    catalog.exercises@,
                    catalog.aliases@,
                    workouts@[j],
                    index_view(target),
                    *filters,
                ),
        decreases workouts.len() - i,
    {
        keep.push(passes(catalog, &workouts[i], target, filters));
        i = i + 1;
    }
    assert(keep@ =~= spec_selection(
        catalog.exercises@,
        catalog.aliases@,
        workouts@,
        index_view(target),
        *filters,
    ));
    Ok(keep)
}

/// The volume table of a log under a filter: one row per day and exercise
/// with a workout that passes, the days most recent first and within a day
/// the exercises in the order of first appearance. Under a day limit only
/// the most recent so many training days are reported. Fails where the
/// filter names an exercise that the catalog does not know.
pub fn aggregate_volume(catalog: &Catalog, workouts: &Vec<Workout>, filters: &VolumeFilters) -> (r:
    Result<Vec<VolumeRow>, TrackerError>)
    ensures
        match r {
            Ok(rows) => !spec_filter_unresolved(catalog.exercises@, catalog.aliases@, *filters)
                && rows_match(
                rows@,
                spec_volume_rows(
                    workouts@,
                    spec_selection(
                        catalog.exercises@,
                        catalog.aliases@,
                        workouts@,
                        spec_filter_target(catalog.exercises@, catalog.aliases@, *filters),
                        *filters,
                    ),
                    filters.limit_days,
                ),
            ),
            Err(e) => spec_filter_unresolved(catalog.exercises@, catalog.aliases@, *filters) && (
            e matches TrackerError::ExerciseNotFound(text) && Some(text@) == (
            match filters.exercise_name {
                Some(identifier) => Some(identifier@),
                None => None,
            })),
        },
{
    match select_workouts(catalog, workouts, filters) {
        Ok(keep) => Ok(aggregate_selected(workouts, &keep, filters.limit_days)),
        Err(e) => Err(e),
    }
}

/// A workout that lacks its sets, its reps or its weight has volume zero.
pub proof fn lemma_missing_factor_gives_zero(w: Workout)
    requires
        w.sets is None || w.reps is None || spec_effective_weight(w) is None,
    ensures
        spec_workout_volume(w) == 0,
{
    let a = or_zero(w.sets);
    let b = or_zero(w.reps);
    let c = or_zero(spec_effective_weight(w));
    assert(a * b * c == 0) by (nonlinear_arith)
        requires
            a == 0 || b == 0 || c == 0,
    ;
}

/// The selected days of a prefix are the days of its selected workouts.
pub proof fn lemma_kept_dates(workouts: Seq<Workout>, keep: Seq<bool>, n: int, day: Date)
    requires
        0 <= n <= workouts.len(),
        keep.len() == workouts.len(),
    ensures
        spec_kept_dates(workouts, keep, n).contains(day) <==> exists|i: int|
            0 <= i < n && keep[i] && (#[trigger] workouts[i]).date == day,
    decreases n,
{
    if n > 0 {
        lemma_kept_dates(workouts, keep, n - 1, day);
        let earlier = spec_kept_dates(workouts, keep, n - 1);
        let now = spec_kept_dates(workouts, keep, n);
        if keep[n - 1] {
            assert(now == earlier.push(workouts[n - 1].date));
            if now.contains(day) {
                let k = choose|k: int| 0 <= k < now.len() && now[k] == day;
                if k < earlier.len() {
                    assert(earlier[k] == day);
                    assert(earlier.contains(day));
                    let i = choose|i: int|
                        0 <= i < n - 1 && keep[i] && (#[trigger] workouts[i]).date == day;
                    assert(0 <= i < n && keep[i] && workouts[i].date == day);
                } else {
                    assert(keep[n - 1] && workouts[n - 1].date == day);
                }
            }
            if exists|i: int| 0 <= i < n && keep[i] && (#[trigger] workouts[i]).date == day {
                let i = choose|i: int|
                    0 <= i < n && keep[i] && (#[trigger] workouts[i]).date == day;
                if i < n - 1 {
                    assert(earlier.contains(day));
                    let k = choose|k: int| 0 <= k < earlier.len() && earlier[k] == day;
                    assert(now[k] == day);
                } else {
                    assert(now[now.len() - 1] == day);
                }
            }
        } else {
            if exists|i: int| 0 <= i < n && keep[i] && (#[trigger] workouts[i]).date == day {
                let i = choose|i: int|
                    0 <= i < n && keep[i] && (#[trigger] workouts[i]).date == day;
                assert(0 <= i < n - 1 && keep[i] && workouts[i].date == day);
            }
            if earlier.contains(day) {
                let i = choose|i: int|
                    0 <= i < n - 1 && keep[i] && (#[trigger] workouts[i]).date == day;
                assert(0 <= i < n && keep[i] && workouts[i].date == day);
            }
        }
    } else {
        assert(!spec_kept_dates(workouts, keep, n).contains(day));
    }
}

/// Whether one of the first `n` workouts is selected, was done on `day` and
/// is of the exercise called `name`.
pub open spec fn trained_on(
    workouts: Seq<Workout>,
    keep: Seq<bool>,
    day: Date,
    n: int,
    name: Seq<char>,
) -> bool {
    exists|i: int|
        0 <= i < n && keep[i] && (#[trigger] workouts[i]).date == day
            && workouts[i].exercise_name@ == name
}

/// The names of a day hold no name twice, hold the name of every selected
/// workout of that day, and hold no other name.
pub proof fn lemma_day_names(workouts: Seq<Workout>, keep: Seq<bool>, day: Date, n: int)
    requires
        0 <= n <= workouts.len(),
        keep.len() == workouts.len(),
    ensures
        forall|a: int, b: int|
            0 <= a < b < spec_day_names(workouts, keep, day, n).len() ==> spec_day_names(
                workouts,
                keep,
                day,
                n,
            )[a] != spec_day_names(workouts, keep, day, n)[b],
        forall|i: int|
            0 <= i < n && keep[i] && (#[trigger] workouts[i]).date == day ==> spec_day_names(
                workouts,
                keep,
                day,
                n,
            ).contains(workouts[i].exercise_name@),
        forall|g: int|
            0 <= g < spec_day_names(workouts, keep, day, n).len() ==> trained_on(
                workouts,
                keep,
                day,
                n,
                #[trigger] spec_day_names(workouts, keep, day, n)[g],
            ),
    decreases n,
{
    if n > 0 {
        lemma_day_names(workouts, keep, day, n - 1);
        let earlier = spec_day_names(workouts, keep, day, n - 1);
        let now = spec_day_names(workouts, keep, day, n);
        let name = workouts[n - 1].exercise_name@;
        assert forall|i: int|
            0 <= i < n && keep[i] && (#[trigger] workouts[i]).date == day implies now.contains(
            workouts[i].exercise_name@,
        ) by {
            if i < n - 1 {
                assert(earlier.contains(workouts[i].exercise_name@));
                let g = choose|g: int|
                    0 <= g < earlier.len() && earlier[g] == workouts[i].exercise_name@;
                assert(now[g] == workouts[i].exercise_name@);
            } else if earlier.contains(name) {
                assert(now == earlier);
            } else {
                assert(now[now.len() - 1] == name);
            }
        }
        assert forall|g: int| 0 <= g < now.len() implies trained_on(
            workouts,
            keep,
            day,
            n,
            #[trigger] now[g],
        ) by {
            if g < earlier.len() {
                assert(trained_on(workouts, keep, day, n - 1, earlier[g]));
                let i = choose|i: int|
                    0 <= i < n - 1 && keep[i] && (#[trigger] workouts[i]).date == day
                        && workouts[i].exercise_name@ == earlier[g];
                assert(0 <= i < n && keep[i] && workouts[i].date == day
                    && workouts[i].exercise_name@ == now[g]);
            } else {
                assert(keep[n - 1] && workouts[n - 1].date == day && workouts[n
                    - 1].exercise_name@ == now[g]);
            }
        }
    }
}

/// Whether a selected workout was done on `day`.
pub open spec fn is_training_day(workouts: Seq<Workout>, keep: Seq<bool>, day: Date) -> bool {
    exists|i: int| 0 <= i < workouts.len() && keep[i] && (#[trigger] workouts[i]).date == day
}

/// The days reported come most recent first, each has a selected workout,
/// a limit bounds their number, and every day with a selected workout that
/// is not reported lies before all that are.
pub proof fn lemma_recent_days(workouts: Seq<Workout>, keep: Seq<bool>, limit: Option<u32>)
    requires
        keep.len() == workouts.len(),
    ensures
        forall|a: int, b: int|
            0 <= a < b < spec_recent_days(workouts, keep, limit).len() ==> spec_recent_days(
                workouts,
                keep,
                limit,
            )[a].days > spec_recent_days(workouts, keep, limit)[b].days,
        forall|r: int|
            0 <= r < spec_recent_days(workouts, keep, limit).len() ==> is_training_day(
                workouts,
                keep,
                #[trigger] spec_recent_days(workouts, keep, limit)[r],
            ),
        limit matches Some(n) ==> spec_recent_days(workouts, keep, limit).len() <= n,
        limit is None ==> forall|i: int|
            0 <= i < workouts.len() && keep[i] ==> spec_recent_days(workouts, keep, limit).contains(
                (#[trigger] workouts[i]).date,
            ),
        forall|i: int, r: int|
            0 <= i < workouts.len() && keep[i] && 0 <= r < spec_recent_days(
                workouts,
                keep,
                limit,
            ).len() && !spec_recent_days(workouts, keep, limit).contains(
                (#[trigger] workouts[i]).date,
            ) ==> workouts[i].date.days < (#[trigger] spec_recent_days(workouts, keep, limit)[r]).days,
{
    let n = workouts.len() as int;
    let kept = spec_kept_dates(workouts, keep, n);
    let ascending = spec_training_days(kept);
    let days = spec_recent_days(workouts, keep, limit);
    crate::calendar::lemma_training_days(kept);
    assert forall|r: int| 0 <= r < days.len() implies is_training_day(
        workouts,
        keep,
        #[trigger] days[r],
    ) by {
        let day = ascending[ascending.len() - 1 - r];
        assert(ascending.contains(day));
        lemma_kept_dates(workouts, keep, n, day);
    }
    assert forall|i: int| 0 <= i < workouts.len() && keep[i] implies ascending.contains(
        (#[trigger] workouts[i]).date,
    ) by {
        lemma_kept_dates(workouts, keep, n, workouts[i].date);
    }
    if limit is None {
        assert forall|i: int| 0 <= i < workouts.len() && keep[i] implies days.contains(
            (#[trigger] workouts[i]).date,
        ) by {
            let day = workouts[i].date;
            assert(ascending.contains(day));
            let k = choose|k: int| 0 <= k < ascending.len() && ascending[k] == day;
            assert(days[ascending.len() - 1 - k] == day);
        }
    }
    assert forall|i: int, r: int|
        0 <= i < workouts.len() && keep[i] && 0 <= r < days.len() && !days.contains(
            (#[trigger] workouts[i]).date,
        ) implies workouts[i].date.days < (#[trigger] days[r]).days by {
        let day = workouts[i].date;
        assert(ascending.contains(day));
        let k = choose|k: int| 0 <= k < ascending.len() && ascending[k] == day;
        let back = ascending.len() - 1 - k;
        if back < days.len() {
            assert(days[back] == day);
        }
    }
}

/// Whether `part` stands in `table` from position `start` on.
pub open spec fn stands_at(
    table: Seq<(Date, Seq<char>, i64)>,
    part: Seq<(Date, Seq<char>, i64)>,
    start: int,
) -> bool {
    &&& 0 <= start
    &&& start + part.len() <= table.len()
    &&& table.subrange(start, start + part.len()) == part
}

/// Each day's rows stand in the table, unbroken and in order.
pub proof fn lemma_rows_upto_holds_day(
    workouts: Seq<Workout>,
    keep: Seq<bool>,
    days: Seq<Date>,
    d: int,
    at: int,
)
    requires
        0 <= at < d <= days.len(),
    ensures
        exists|start: int| #[trigger]
            stands_at(
                spec_rows_upto(workouts, keep, days, d),
                spec_day_rows(workouts, keep, days[at]),
                start,
            ),
    decreases d,
{
    let earlier = spec_rows_upto(workouts, keep, days, d - 1);
    let now = spec_rows_upto(workouts, keep, days, d);
    let wanted = spec_day_rows(workouts, keep, days[at]);
    if at == d - 1 {
        let start = earlier.len() as int;
        assert(now.subrange(start, start + wanted.len()) =~= wanted);
        assert(stands_at(now, wanted, start));
    } else {
        lemma_rows_upto_holds_day(workouts, keep, days, d - 1, at);
        let start = choose|start: int| #[trigger] stands_at(earlier, wanted, start);
        assert(now.subrange(start, start + wanted.len()) =~= earlier.subrange(
            start,
            start + wanted.len(),
        ));
        assert(stands_at(now, wanted, start));
    }
}

/// No selected workout is left out: where its day is among the days
/// reported, the table has a row for its day and exercise, and that row
/// holds the day's total for the exercise, whether or not the workout adds
/// anything to it.
pub proof fn lemma_selected_workout_has_row(
    workouts: Seq<Workout>,
    keep: Seq<bool>,
    limit: Option<u32>,
    i: int,
)
    requires
        keep.len() == workouts.len(),
        0 <= i < workouts.len(),
        keep[i],
        spec_recent_days(workouts, keep, limit).contains(workouts[i].date),
    ensures
        exists|k: int|
            0 <= k < spec_volume_rows(workouts, keep, limit).len() && (#[trigger] spec_volume_rows(
                workouts,
                keep,
                limit,
            )[k]) == (
                workouts[i].date,
                workouts[i].exercise_name@,
                clamp_i64(
                    spec_group_total(
                        workouts,
                        keep,
                        workouts[i].date,
                        workouts[i].exercise_name@,
                        workouts.len() as int,
                    ),
                ),
            ),
{
    let days = spec_recent_days(workouts, keep, limit);
    let day = workouts[i].date;
    let name = workouts[i].exercise_name@;
    let at = choose|at: int| 0 <= at < days.len() && days[at] == day;
    lemma_rows_upto_holds_day(workouts, keep, days, days.len() as int, at);
    let table = spec_volume_rows(workouts, keep, limit);
    let wanted = spec_day_rows(workouts, keep, day);
    let start = choose|start: int| #[trigger] stands_at(table, wanted, start);
    lemma_day_names(workouts, keep, day, workouts.len() as int);
    let names = spec_day_names(workouts, keep, day, workouts.len() as int);
    assert(names.contains(name));
    let g = choose|g: int| 0 <= g < names.len() && names[g] == name;
    assert(table.subrange(start, start + wanted.len())[g] == table[start + g]);
    assert(table[start + g] == wanted[g]);
}

/// Whether each day comes strictly after the next.
pub open spec fn strictly_descending(days: Seq<Date>) -> bool {
    forall|a: int, b: int| 0 <= a < b < days.len() ==> days[a].days > days[b].days
}

/// The rows of descending days come by day, most recent first, and no day
/// and exercise has two rows.
pub proof fn lemma_rows_upto_ordered(
    workouts: Seq<Workout>,
    keep: Seq<bool>,
    days: Seq<Date>,
    d: int,
)
    requires
        keep.len() == workouts.len(),
        strictly_descending(days),
        0 <= d <= days.len(),
    ensures
        d > 0 ==> forall|k: int|
            0 <= k < spec_rows_upto(workouts, keep, days, d).len() ==> (#[trigger] spec_rows_upto(
                workouts,
                keep,
                days,
                d,
            )[k]).0.days >= days[d - 1].days,
        forall|a: int, b: int|
            0 <= a < b < spec_rows_upto(workouts, keep, days, d).len() ==> (#[trigger] spec_rows_upto(
                workouts,
                keep,
                days,
                d,
            )[a]).0.days >= (#[trigger] spec_rows_upto(workouts, keep, days, d)[b]).0.days,
        forall|a: int, b: int|
            0 <= a < b < spec_rows_upto(workouts, keep, days, d).len() && (#[trigger] spec_rows_upto(
                workouts,
                keep,
                days,
                d,
            )[a]).0 == (#[trigger] spec_rows_upto(workouts, keep, days, d)[b]).0
                ==> spec_rows_upto(workouts, keep, days, d)[a].1 != spec_rows_upto(
                workouts,
                keep,
                days,
                d,
            )[b].1,
    decreases d,
{
    if d > 0 {
        lemma_rows_upto_ordered(workouts, keep, days, d - 1);
        let earlier = spec_rows_upto(workouts, keep, days, d - 1);
        let day = days[d - 1];
        let today = spec_day_rows(workouts, keep, day);
        let now = spec_rows_upto(workouts, keep, days, d);
        let names = spec_day_names(workouts, keep, day, workouts.len() as int);
        lemma_day_names(workouts, keep, day, workouts.len() as int);
        assert(now == earlier + today);
        assert forall|k: int| 0 <= k < now.len() implies (#[trigger] now[k]).0.days
            >= day.days by {
            if k < earlier.len() {
                assert(now[k] == earlier[k]);
                assert(d - 1 > 0);
                assert(earlier[k].0.days >= days[d - 2].days);
            } else {
                assert(now[k] == today[k - earlier.len()]);
            }
        }
        assert forall|a: int, b: int| 0 <= a < b < now.len() implies (#[trigger] now[a]).0.days >= (
        #[trigger] now[b]).0.days && (now[a].0 == now[b].0 ==> now[a].1 != now[b].1) by {
            if b < earlier.len() {
                assert(now[a] == earlier[a] && now[b] == earlier[b]);
            } else if a < earlier.len() {
                assert(now[a] == earlier[a]);
                assert(now[b] == today[b - earlier.len()]);
                assert(d - 1 > 0);
                assert(earlier[a].0.days >= days[d - 2].days);
                assert(days[d - 2].days > days[d - 1].days);
            } else {
                assert(now[a] == today[a - earlier.len()]);
                assert(now[b] == today[b - earlier.len()]);
                assert(names[a - earlier.len()] != names[b - earlier.len()]);
            }
        }
    }
}

/// The volume table comes by day, most recent first, and has one row for
/// each day and exercise.
pub proof fn lemma_volume_rows_ordered(
    workouts: Seq<Workout>,
    keep: Seq<bool>,
    limit: Option<u32>,
)
    requires
        keep.len() == workouts.len(),
    ensures
        forall|a: int, b: int|
            0 <= a < b < spec_volume_rows(workouts, keep, limit).len() ==> (#[trigger] spec_volume_rows(
                workouts,
                keep,
                limit,
            )[a]).0.days >= (#[trigger] spec_volume_rows(workouts, keep, limit)[b]).0.days,
        forall|a: int, b: int|
            0 <= a < b < spec_volume_rows(workouts, keep, limit).len() && (#[trigger] spec_volume_rows(
                workouts,
                keep,
                limit,
            )[a]).0 == (#[trigger] spec_volume_rows(workouts, keep, limit)[b]).0
                ==> spec_volume_rows(workouts, keep, limit)[a].1 != spec_volume_rows(
                workouts,
                keep,
                limit,
            )[b].1,
{
    let days = spec_recent_days(workouts, keep, limit);
    lemma_recent_days(workouts, keep, limit);
    lemma_rows_upto_ordered(workouts, keep, days, days.len() as int);
}

} // verus!
