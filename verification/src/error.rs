//! The ways a request can fail.

use vstd::prelude::*;

verus! {

/// Why a request could not be answered. Each is a value for the caller to
/// report; none ends the program.
#[derive(Clone, Debug, PartialEq, Eq)]
pub enum TrackerError {
    /// No exercise has this id, name or alias.
    ExerciseNotFound(String),
    /// The exercise exists but no workout of it was ever logged.
    NoWorkoutDataFound(String),
    /// Another exercise or an alias already goes by this name.
    ExerciseNameNotUnique(String),
    /// No alias is spelled like this.
    AliasNotFound(String),
    /// No workout has this id.
    WorkoutNotFound(i64),
    /// No bodyweight measurement has this id.
    BodyweightEntryNotFound(i64),
    /// A value that the request cannot take.
    InvalidInput(String),
}

} // verus!
