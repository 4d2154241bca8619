//! Looking back through the log of one exercise.

use crate::calendar::{spec_training_days, training_days};
use crate::catalog::Catalog;
use crate::date::Date;
use crate::error::TrackerError;
use crate::model::{ExerciseType, Workout};
use crate::stats::{named_dates, spec_named_dates};
use vstd::prelude::*;
use vstd::string::StringExecFns;

verus! {

/// The `n`th most recent of a list of ascending days, counting from 1, or
/// `None` where the list has no such day.
pub open spec fn spec_nth_last(days: Seq<Date>, n: u32) -> Option<Date> {
    if 1 <= n <= days.len() {
        Some(days[days.len() - n])
    } else {
        None
    }
}

/// The places among the first `n` workouts of the log that hold a workout
/// of the exercise called `name` done on `day`, in log order.
pub open spec fn spec_places_on(workouts: Seq<Workout>, name: Seq<char>, day: Date, n: int) -> Seq<
    usize,
>
    decreases n,
{
    if n <= 0 {
        Seq::empty()
    } else if workouts[n - 1].exercise_name@ == name && workouts[n - 1].date == day {
        spec_places_on(workouts, name, day, n - 1).push((n - 1) as usize)
    } else {
        spec_places_on(workouts, name, day, n - 1)
    }
}

/// The places found are exactly the places of the exercise's workouts of
/// that day, each once and in ascending order.
pub proof fn lemma_places_on(workouts: Seq<Workout>, name: Seq<char>, day: Date, n: int)
    requires
        0 <= n <= workouts.len(),
        workouts.len() <= usize::MAX,
    ensures
        forall|p: int|
            0 <= p < spec_places_on(workouts, name, day, n).len() ==> {
                let place = #[trigger] spec_places_on(workouts, name, day, n)[p];
                &&& place < n
                &&& workouts[place as int].exercise_name@ == name
                &&& workouts[place as int].date == day
            },
        forall|p: int, q: int|
            0 <= p < q < spec_places_on(workouts, name, day, n).len() ==> spec_places_on(
                workouts,
                name,
                day,
                n,
            )[p] < spec_places_on(workouts, name, day, n)[q],
        forall|i: int|
            0 <= i < n && (#[trigger] workouts[i]).exercise_name@ == name && workouts[i].date
                == day ==> spec_places_on(workouts, name, day, n).contains(i as usize),
    decreases n,
{
    if n > 0 {
        lemma_places_on(workouts, name, day, n - 1);
        let earlier = spec_places_on(workouts, name, day, n - 1);
        let now = spec_places_on(workouts, name, day, n);
        assert forall|i: int|
            0 <= i < n && (#[trigger] workouts[i]).exercise_name@ == name && workouts[i].date
                == day implies now.contains(i as usize) by {
            if i < n - 1 {
                assert(earlier.contains(i as usize));
                let p = choose|p: int| 0 <= p < earlier.len() && earlier[p] == i as usize;
                assert(now[p] == i as usize);
            } else {
                assert(now[now.len() - 1] == i as usize);
            }
        }
    }
}

/// The `n`th most recent of a list of ascending days, counting from 1.
pub fn nth_last(days: &Vec<Date>, n: u32) -> (r: Option<Date>)
    ensures
        r == spec_nth_last(days@, n),
{
    if n >= 1 && (n as usize) <= days.len() {
        Some(days[days.len() - n as usize])
    } else {
        None
    }
}

/// The places in the log of the workouts of the exercise called `name`
/// done on `day`.
pub fn places_on(workouts: &Vec<Workout>, name: &String, day: Date) -> (r: Vec<usize>)
    ensures
        r@ == spec_places_on(workouts@, name@, day, workouts.len() as int),
{
    let mut places: Vec<usize> = Vec::new();
    let mut i: usize = 0;
    while i < workouts.len()
        invariant
            0 <= i <= workouts.len(),
            places@ == spec_places_on(workouts@, name@, day, i as int),
        decreases workouts.len() - i,
    {
        if workouts[i].exercise_name == *name && workouts[i].date == day {
            places.push(i);
        }
        i = i + 1;
    }
    places
}

/// The places in the log of the workouts done on the `n`th most recent day
/// on which the exercise that `identifier` stands for was trained, counting
/// from 1. Where the exercise was trained on fewer days, or `n` is zero,
/// there are none. Fails where the identifier stands for no exercise.
pub fn workouts_on_nth_last_day(
    catalog: &Catalog,
    workouts: &Vec<Workout>,
    identifier: &str,
    n: u32,
) -> (r: Result<Vec<usize>, TrackerError>)
    ensures
        match r {
            Ok(places) => (catalog.spec_resolve(identifier@) matches Some(k) && places@ == (
            match spec_nth_last(
                spec_training_days(
                    spec_named_dates(
                        workouts@,
                        catalog.exercises@[k].name@,
                        workouts.len() as int,
                    ),
                ),
                n,
            ) {
                Some(day) => spec_places_on(
                    workouts@,
                    catalog.exercises@[k].name@,
                    day,
                    workouts.len() as int,
                ),
                None => Seq::empty(),
            })),
            Err(e) => catalog.spec_resolve(identifier@) is None && (
            e matches TrackerError::ExerciseNotFound(text) && text@ == identifier@),
        },
{
    let k = match catalog.resolve_index(identifier) {
        Some(k) => k,
        None => {
            return Err(TrackerError::ExerciseNotFound(String::from_str(identifier)));
        },
    };
    let name = &catalog.exercises[k].name;
    let days = training_days(&named_dates(workouts, name));
    match nth_last(&days, n) {
        Some(day) => Ok(places_on(workouts, name, day)),
        None => Ok(Vec::new()),
    }
}

/// The places among the first `n` that are marked, in order.
pub open spec fn spec_marked_places(keep: Seq<bool>, n: int) -> Seq<usize>
    decreases n,
{
    if n <= 0 {
        Seq::empty()
    } else if keep[n - 1] {
        spec_marked_places(keep, n - 1).push((n - 1) as usize)
    } else {
        spec_marked_places(keep, n - 1)
    }
}

/// The last `limit` of a list of places, or all of them where there are
/// fewer or no limit is set.
pub open spec fn spec_last_places(places: Seq<usize>, limit: Option<u32>) -> Seq<usize> {
    match limit {
        Some(n) if n < places.len() => places.subrange(places.len() - n, places.len() as int),
        _ => places,
    }
}

/// The places of the marked workouts of a log, in log order; under a limit
/// only the last so many of them.
pub fn listed_places(keep: &Vec<bool>, limit: Option<u32>) -> (r: Vec<usize>)
    ensures
        r@ == spec_last_places(spec_marked_places(keep@, keep.len() as int), limit),
{
    let mut places: Vec<usize> = Vec::new();
    let mut i: usize = 0;
    while i < keep.len()
        invariant
            0 <= i <= keep.len(),
            places@ == spec_marked_places(keep@, i as int),
            places@.len() <= i,
        decreases keep.len() - i,
    {
        if keep[i] {
            places.push(i);
        }
        i = i + 1;
    }
    let skip = match limit {
        Some(n) if (n as usize) < places.len() => places.len() - n as usize,
        _ => 0,
    };
    let mut out: Vec<usize> = Vec::new();
    let mut j: usize = skip;
    while j < places.len()
        invariant
            skip <= j <= places.len(),
            out@ == places@.subrange(skip as int, j as int),
        decreases places.len() - j,
    {
        out.push(places[j]);
        assert(places@.subrange(skip as int, j as int).push(places@[j as int])
            =~= places@.subrange(skip as int, j as int + 1));
        j = j + 1;
    }
    assert(places@.subrange(0, places@.len() as int) =~= places@);
    out
}

/// Takes the first workout with the id `id` out of the log and returns the
/// place it had. Fails, and leaves the log as it was, where no workout has
/// that id.
pub fn remove_workout(workouts: &mut Vec<Workout>, id: i64) -> (r: Result<usize, TrackerError>)
    ensures
        match r {
            Ok(place) => {
                &&& place < old(workouts)@.len()
                &&& old(workouts)@[place as int].id == id
                &&& forall|j: int| 0 <= j < place ==> (#[trigger] old(workouts)@[j]).id != id
                &&& final(workouts)@ == old(workouts)@.remove(place as int)
            },
            Err(e) => {
                &&& e == TrackerError::WorkoutNotFound(id)
                &&& forall|j: int|
                    0 <= j < old(workouts)@.len() ==> (#[trigger] old(workouts)@[j]).id != id
                &&& *final(workouts) == *old(workouts)
            },
        },
{
    let mut i: usize = 0;
    while i < workouts.len()
        invariant
            *workouts == *old(workouts),
            0 <= i <= workouts.len(),
            forall|j: int| 0 <= j < i ==> (#[trigger] workouts@[j]).id != id,
        decreases workouts.len() - i,
    {
        if workouts[i].id == id {
            workouts.remove(i);
            return Ok(i);
        }
        i = i + 1;
    }
    Err(TrackerError::WorkoutNotFound(id))
}

/// The changes to make to a logged workout. What is `None` stays as it is.
#[derive(Clone, Debug, PartialEq, Eq)]
pub struct WorkoutEdit {
    /// An id, name or alias of the exercise the workout is to belong to.
    pub exercise: Option<String>,
    pub sets: Option<i64>,
    pub reps: Option<i64>,
    /// Thousandths of the weight unit.
    pub weight: Option<i64>,
    pub duration_minutes: Option<i64>,
    /// Metres.
    pub distance: Option<i64>,
    pub notes: Option<String>,
    pub date: Option<Date>,
    /// Thousandths of the weight unit.
    pub bodyweight: Option<i64>,
}

/// One part of an edited record: the new value where the edit states one,
/// the old value where it does not.
pub open spec fn edited<T>(change: Option<T>, before: Option<T>) -> Option<T> {
    match change {
        Some(value) => Some(value),
        None => before,
    }
}

/// Whether `after` is the workout `before` under the edit, the exercise at
/// `target` being the one the edit names, if it names one.
pub open spec fn spec_edited_workout(
    before: Workout,
    after: Workout,
    edit: WorkoutEdit,
    target: Option<(Seq<char>, ExerciseType)>,
) -> bool {
    &&& after.id == before.id
    &&& after.exercise_name@ == match target {
        Some(exercise) => exercise.0,
        None => before.exercise_name@,
    }
    &&& after.exercise_type == match target {
        Some(exercise) => Some(exercise.1),
        None => before.exercise_type,
    }
    &&& after.sets == edited(edit.sets, before.sets)
    &&& after.reps == edited(edit.reps, before.reps)
    &&& after.weight == edited(edit.weight, before.weight)
    &&& after.duration_minutes == edited(edit.duration_minutes, before.duration_minutes)
    &&& after.distance == edited(edit.distance, before.distance)
    &&& after.notes == edited(edit.notes, before.notes)
    &&& after.bodyweight == edited(edit.bodyweight, before.bodyweight)
    &&& after.date == match edit.date {
        Some(day) => day,
        None => before.date,
    }
}

/// Applies an edit to a workout. Where the edit names an exercise, the
/// workout takes that exercise's name and type; the edit fails, and the
/// workout is handed back unchanged, where the catalog knows no such
/// exercise.
pub fn edit_workout(catalog: &Catalog, workout: Workout, edit: WorkoutEdit) -> (r: Result<
    Workout,
    (Workout, TrackerError),
>)
    ensures
        match r {
            Ok(after) => match edit.exercise {
                Some(identifier) => (catalog.spec_resolve(identifier@) matches Some(k)
                    && spec_edited_workout(
                    workout,
                    after,
                    edit,
                    Some((catalog.exercises@[k].name@, catalog.exercises@[k].type_)),
                )),
                None => spec_edited_workout(workout, after, edit, None),
            },
            Err(failure) => failure.0 == workout && (edit.exercise matches Some(identifier)
                && catalog.spec_resolve(identifier@) is None && (
            failure.1 matches TrackerError::ExerciseNotFound(text) && text@ == identifier@)),
        },
{
    let mut after = workout;
    if let Some(identifier) = &edit.exercise {
        match catalog.resolve_index(identifier.as_str()) {
            Some(k) => {
                after.exercise_name = catalog.exercises[k].name.clone();
                after.exercise_type = Some(catalog.exercises[k].type_);
            },
            None => {
                return Err((after, TrackerError::ExerciseNotFound(identifier.clone())));
            },
        }
    }
    if edit.sets.is_some() {
        after.sets = edit.sets;
    }
    if edit.reps.is_some() {
        after.reps = edit.reps;
    }
    if edit.weight.is_some() {
        after.weight = edit.weight;
    }
    if edit.duration_minutes.is_some() {
        after.duration_minutes = edit.duration_minutes;
    }
    if edit.distance.is_some() {
        after.distance = edit.distance;
    }
    if edit.bodyweight.is_some() {
        after.bodyweight = edit.bodyweight;
    }
    if let Some(day) = edit.date {
        after.date = day;
    }
    if edit.notes.is_some() {
        after.notes = edit.notes;
    }
    Ok(after)
}

} // verus!
