//! The records the analytics read and the values they derive.

use crate::date::Date;
use crate::quantity::{clamp_i64, or_zero, saturating_sum};
use vstd::prelude::*;

verus! {

/// How an exercise loads the athlete.
#[derive(Clone, Copy, Debug, PartialEq, Eq, Structural, Hash)]
pub enum ExerciseType {
    Resistance,
    Cardio,
    BodyWeight,
}

/// The unit system quantities are shown in.
#[derive(Clone, Copy, Debug, PartialEq, Eq, Structural, Hash)]
pub enum Units {
    Metric,
    Imperial,
}

/// A defined exercise.
#[derive(Clone, Debug, PartialEq, Eq)]
pub struct ExerciseDefinition {
    pub id: i64,
    pub name: String,
    pub type_: ExerciseType,
    /// The target muscles, one tag each.
    pub muscles: Vec<String>,
    pub log_weight: bool,
    pub log_reps: bool,
    pub log_duration: bool,
    pub log_distance: bool,
}

/// A second name for an exercise.
#[derive(Clone, Debug, PartialEq, Eq)]
pub struct Alias {
    pub alias: String,
    pub exercise_id: i64,
}

/// One logged set of an exercise.
#[derive(Clone, Debug, PartialEq, Eq)]
pub struct Workout {
    pub id: i64,
    pub date: Date,
    /// The name of the exercise as it stood when the workout was last written.
    pub exercise_name: String,
    pub exercise_type: Option<ExerciseType>,
    pub sets: Option<i64>,
    pub reps: Option<i64>,
    /// Thousandths of the weight unit; for a bodyweight exercise, the weight
    /// added to the athlete's own.
    pub weight: Option<i64>,
    /// The athlete's bodyweight captured when the workout was logged, in
    /// thousandths of the weight unit.
    pub bodyweight: Option<i64>,
    pub duration_minutes: Option<i64>,
    /// Metres.
    pub distance: Option<i64>,
    pub notes: Option<String>,
}

/// A bodyweight measurement.
#[derive(Clone, Copy, Debug, PartialEq, Eq, Structural)]
pub struct BodyweightEntry {
    pub id: i64,
    /// Seconds since the Unix epoch.
    pub timestamp: i64,
    /// Thousandths of the weight unit.
    pub weight: i64,
}

/// The four quantities in which a personal best can be set.
#[derive(Clone, Copy, Debug, PartialEq, Eq, Structural, Hash)]
pub enum Metric {
    Weight,
    Reps,
    Duration,
    Distance,
}

/// The exact weight a workout counts with, before it is brought into range:
/// bodyweight plus added weight for a bodyweight exercise, the logged weight
/// otherwise.
pub open spec fn spec_exact_effective_weight(w: Workout) -> Option<int> {
    if w.exercise_type == Some(ExerciseType::BodyWeight) {
        Some(or_zero(w.bodyweight) + or_zero(w.weight))
    } else {
        match w.weight {
            Some(v) => Some(v as int),
            None => None,
        }
    }
}

/// The weight a workout counts with.
pub open spec fn spec_effective_weight(w: Workout) -> Option<i64> {
    match spec_exact_effective_weight(w) {
        Some(v) => Some(clamp_i64(v)),
        None => None,
    }
}

/// The value a workout logs for a metric; its weight is the effective one.
pub open spec fn spec_metric_value(w: Workout, metric: Metric) -> Option<i64> {
    match metric {
        Metric::Weight => spec_effective_weight(w),
        Metric::Reps => w.reps,
        Metric::Duration => w.duration_minutes,
        Metric::Distance => w.distance,
    }
}

impl Workout {
    /// The weight this workout counts with, for display, volume and personal
    /// bests alike. A bodyweight exercise counts the captured bodyweight plus
    /// the added weight, each taken as zero where absent; any other exercise
    /// counts the logged weight as it is.
    pub fn calculate_effective_weight(&self) -> (r: Option<i64>)
        ensures
            r == spec_effective_weight(*self),
    {
        let bodyweight_exercise = match self.exercise_type {
            Some(ExerciseType::BodyWeight) => true,
            _ => false,
        };
        if bodyweight_exercise {
            let base = match self.bodyweight {
                Some(v) => v,
                None => 0,
            };
            let added = match self.weight {
                Some(v) => v,
                None => 0,
            };
            Some(saturating_sum(base, added))
        } else {
            self.weight
        }
    }

    /// The value this workout logs for a metric.
    pub fn metric_value(&self, metric: Metric) -> (r: Option<i64>)
        ensures
            r == spec_metric_value(*self, metric),
    {
        match metric {
            Metric::Weight => self.calculate_effective_weight(),
            Metric::Reps => self.reps,
            Metric::Duration => self.duration_minutes,
            Metric::Distance => self.distance,
        }
    }
}

/// A workout that is not of a bodyweight exercise counts with its weight
/// as logged. A workout of a bodyweight exercise counts with the captured
/// bodyweight plus the added weight, each zero where absent, wherever that
/// sum fits the range of `i64`.
pub proof fn lemma_effective_weight(w: Workout)
    ensures
        w.exercise_type != Some(ExerciseType::BodyWeight) ==> spec_effective_weight(w) == w.weight,
        w.exercise_type == Some(ExerciseType::BodyWeight) && i64::MIN <= or_zero(w.bodyweight)
            + or_zero(w.weight) <= i64::MAX ==> spec_effective_weight(w) == Some(
            (or_zero(w.bodyweight) + or_zero(w.weight)) as i64,
        ),
{
}

} // verus!
