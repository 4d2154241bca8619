//! What the command line's arguments mean: the choices between flags and
//! the requests they add up to.

use crate::config::{Config, PbNotificationConfig};
use crate::date::Date;
use crate::error::TrackerError;
use crate::model::{ExerciseType, Units};
use crate::text::{std_trim, trimmed};
use crate::volume::VolumeFilters;
use vstd::prelude::*;
use vstd::string::StringExecFns;

verus! {

/// An exercise type as written on the command line.
#[derive(Clone, Copy, Debug, PartialEq, Eq, Structural)]
pub enum ExerciseTypeCli {
    Resistance,
    Cardio,
    BodyWeight,
}

/// A unit system as written on the command line.
#[derive(Clone, Copy, Debug, PartialEq, Eq, Structural)]
pub enum UnitsCli {
    Metric,
    Imperial,
}

/// The exercise type that a command-line value stands for.
pub open spec fn spec_db_type(cli_type: ExerciseTypeCli) -> ExerciseType {
    match cli_type {
        ExerciseTypeCli::Resistance => ExerciseType::Resistance,
        ExerciseTypeCli::Cardio => ExerciseType::Cardio,
        ExerciseTypeCli::BodyWeight => ExerciseType::BodyWeight,
    }
}

/// The exercise type that a command-line value stands for.
pub fn cli_type_to_db_type(cli_type: ExerciseTypeCli) -> (r: ExerciseType)
    ensures
        r == spec_db_type(cli_type),
{
    match cli_type {
        ExerciseTypeCli::Resistance => ExerciseType::Resistance,
        ExerciseTypeCli::Cardio => ExerciseType::Cardio,
        ExerciseTypeCli::BodyWeight => ExerciseType::BodyWeight,
    }
}

/// The unit system that a command-line value stands for.
pub fn cli_units_to_db_units(cli_units: UnitsCli) -> (r: Units)
    ensures
        r == match cli_units {
            UnitsCli::Metric => Units::Metric,
            UnitsCli::Imperial => Units::Imperial,
        },
{
    match cli_units {
        UnitsCli::Metric => Units::Metric,
        UnitsCli::Imperial => Units::Imperial,
    }
}

/// Gathers the four logging flags of an exercise. Where none is set there
/// is nothing to say; else all four are stated, in the order duration,
/// distance, weight, reps.
pub fn convert_flags(weight: bool, reps: bool, duration: bool, distance: bool) -> (r: Option<
    (Option<bool>, Option<bool>, Option<bool>, Option<bool>),
>)
    ensures
        !weight && !reps && !duration && !distance ==> r is None,
        weight || reps || duration || distance ==> r == Some(
            (Some(duration), Some(distance), Some(weight), Some(reps)),
        ),
{
    if !duration && !distance && !weight && !reps {
        None
    } else {
        Some((Some(duration), Some(distance), Some(weight), Some(reps)))
    }
}

/// What a muscles argument of an edit asks for: nothing where it is absent,
/// clearing the list where it is blank, and else the list it spells, taken
/// without surrounding white space.
pub open spec fn spec_muscles_update(muscles: Option<Seq<char>>) -> Option<Option<Seq<char>>> {
    match muscles {
        None => None,
        Some(text) => if trimmed(text).len() == 0 {
            Some(None)
        } else {
            Some(Some(trimmed(text)))
        },
    }
}

/// A nested optional text by its characters.
pub open spec fn update_view(update: Option<Option<String>>) -> Option<Option<Seq<char>>> {
    match update {
        None => None,
        Some(None) => Some(None),
        Some(Some(text)) => Some(Some(text@)),
    }
}

/// What a muscles argument of an edit asks for.
pub fn muscles_update(muscles: Option<&str>) -> (r: Option<Option<String>>)
    ensures
        update_view(r) == spec_muscles_update(
            match muscles {
                Some(text) => Some(text@),
                None => None,
            },
        ),
{
    match muscles {
        None => None,
        Some(text) => {
            let inner = std_trim(text);
            if inner.is_empty() {
                Some(None)
            } else {
                Some(Some(String::from_str(inner)))
            }
        },
    }
}

/// The identifier of the exercise to log a workout for: the argument
/// without surrounding white space, which must leave something.
pub fn workout_identifier(exercise: &str) -> (r: Result<String, TrackerError>)
    ensures
        match r {
            Ok(identifier) => identifier@ == trimmed(exercise@) && identifier@.len() > 0,
            Err(e) => trimmed(exercise@).len() == 0 && (
            e matches TrackerError::InvalidInput(text) && text@
                == "Exercise identifier cannot be empty for adding a workout."@),
        },
{
    let inner = std_trim(exercise);
    if inner.is_empty() {
        Err(
            TrackerError::InvalidInput(
                String::from_str("Exercise identifier cannot be empty for adding a workout."),
            ),
        )
    } else {
        Ok(String::from_str(inner))
    }
}

/// Whether logging a workout needs the athlete's bodyweight: the exercise
/// is a bodyweight exercise, or it does not exist yet and is to be created
/// as one.
pub fn needs_bodyweight(defined: Option<ExerciseType>, implicit: Option<ExerciseTypeCli>) -> (r:
    bool)
    ensures
        r == match defined {
            Some(t) => t == ExerciseType::BodyWeight,
            None => implicit == Some(ExerciseTypeCli::BodyWeight),
        },
{
    match defined {
        Some(t) => match t {
            ExerciseType::BodyWeight => true,
            _ => false,
        },
        None => match implicit {
            Some(ExerciseTypeCli::BodyWeight) => true,
            _ => false,
        },
    }
}

/// Where the bodyweight for a workout comes from.
#[derive(Clone, Copy, Debug, PartialEq, Eq, Structural)]
pub enum BodyweightSource {
    /// The latest logged measurement.
    Latest(i64),
    /// The athlete is asked.
    Prompt,
    /// None is known and none is asked for: the base is zero.
    Zero,
}

/// Chooses where the bodyweight for a workout comes from: the latest
/// measurement where there is one, else a prompt where prompts are on, else
/// zero.
pub fn bodyweight_source(latest: Option<i64>, prompt_for_bodyweight: bool) -> (r: BodyweightSource)
    ensures
        r == match latest {
            Some(weight) => BodyweightSource::Latest(weight),
            None => if prompt_for_bodyweight {
                BodyweightSource::Prompt
            } else {
                BodyweightSource::Zero
            },
        },
{
    match latest {
        Some(weight) => BodyweightSource::Latest(weight),
        None => if prompt_for_bodyweight {
            BodyweightSource::Prompt
        } else {
            BodyweightSource::Zero
        },
    }
}

/// What the athlete answered to the bodyweight prompt.
#[derive(Clone, Debug, PartialEq, Eq)]
pub enum BodyweightReply {
    /// Nothing: this workout goes without a bodyweight.
    Skip,
    /// "n" or "N": no more prompts, and this workout goes without.
    DisablePrompt,
    /// Anything else, without surrounding white space: a weight to read.
    Entered(String),
}

/// Reads the answer to the bodyweight prompt.
pub fn read_bodyweight_reply(input: &str) -> (r: BodyweightReply)
    ensures
        trimmed(input@).len() == 0 ==> r == BodyweightReply::Skip,
        trimmed(input@) == "n"@ || trimmed(input@) == "N"@ ==> r == BodyweightReply::DisablePrompt,
        trimmed(input@).len() != 0 && trimmed(input@) != "n"@ && trimmed(input@) != "N"@ ==> (
        r matches BodyweightReply::Entered(text) && text@ == trimmed(input@)),
{
    proof {
        reveal_strlit("n");
        reveal_strlit("N");
    }
    let inner = String::from_str(std_trim(input));
    if inner.as_str().is_empty() {
        BodyweightReply::Skip
    } else if inner == String::from_str("n") || inner == String::from_str("N") {
        BodyweightReply::DisablePrompt
    } else {
        BodyweightReply::Entered(inner)
    }
}

/// Reads the answer to the question whether to be told of personal bests:
/// "y" or "n" in either case, anything else being no answer.
pub fn read_pb_reply(input: &str) -> (r: Option<bool>)
    ensures
        r == if trimmed(input@) == "y"@ || trimmed(input@) == "Y"@ {
            Some(true)
        } else if trimmed(input@) == "n"@ || trimmed(input@) == "N"@ {
            Some(false)
        } else {
            None
        },
{
    let inner = String::from_str(std_trim(input));
    if inner == String::from_str("y") || inner == String::from_str("Y") {
        Some(true)
    } else if inner == String::from_str("n") || inner == String::from_str("N") {
        Some(false)
    } else {
        None
    }
}

/// Takes the athlete's answer to the question whether to be told of
/// personal bests: a yes or no is stored as the global switch and returned;
/// anything else leaves the settings as they were.
pub fn apply_pb_reply(config: &mut Config, input: &str) -> (r: Option<bool>)
    ensures
        r == if trimmed(input@) == "y"@ || trimmed(input@) == "Y"@ {
            Some(true)
        } else if trimmed(input@) == "n"@ || trimmed(input@) == "N"@ {
            Some(false)
        } else {
            None
        },
        r is None ==> *final(config) == *old(config),
        r is Some ==> *final(config) == (Config {
            pb_notifications: PbNotificationConfig { enabled: r, ..old(config).pb_notifications },
            ..*old(config)
        }),
{
    let answer = read_pb_reply(input);
    if let Some(enabled) = answer {
        config.set_notification_setting(enabled);
    }
    answer
}

/// When a workout logged for a day is taken to have happened.
#[derive(Clone, Copy, Debug, PartialEq, Eq, Structural)]
pub enum WorkoutTime {
    /// At this moment: the day is today.
    Now,
    /// At noon of the day.
    Noon,
}

/// Chooses the time of day for a workout logged for `date`.
pub fn workout_time(date: Date, today: Date) -> (r: WorkoutTime)
    ensures
        r == if date == today {
            WorkoutTime::Now
        } else {
            WorkoutTime::Noon
        },
{
    if date.days == today.days {
        WorkoutTime::Now
    } else {
        WorkoutTime::Noon
    }
}

/// The day a listing is for: today or yesterday where the flag is set, the
/// today flag first, else the date given if any.
pub fn effective_list_date(
    today_flag: bool,
    yesterday_flag: bool,
    date: Option<Date>,
    today: Date,
) -> (r: Option<Date>)
    requires
        today.days > i32::MIN,
    ensures
        r == if today_flag {
            Some(today)
        } else if yesterday_flag {
            Some(Date { days: (today.days - 1) as i32 })
        } else {
            date
        },
{
    if today_flag {
        Some(today)
    } else if yesterday_flag {
        Some(Date { days: today.days - 1 })
    } else {
        date
    }
}

/// The number of entries a listing is cut to: the limit, unless the listing
/// is for one day or for the nth last day of an exercise.
pub fn effective_list_limit(date: Option<Date>, nth_last_day_n: Option<u32>, limit: u32) -> (r:
    Option<u32>)
    ensures
        r == if date is None && nth_last_day_n is None {
            Some(limit)
        } else {
            None
        },
{
    if date.is_none() && nth_last_day_n.is_none() {
        Some(limit)
    } else {
        None
    }
}

/// The filter that the arguments of a volume request add up to. A single
/// date stands for the range from that day to itself and overrides a range;
/// the day limit holds only where no bound is given.
pub fn volume_filters(
    exercise: Option<String>,
    date: Option<Date>,
    type_: Option<ExerciseTypeCli>,
    muscle: Option<String>,
    limit_days: u32,
    start_date: Option<Date>,
    end_date: Option<Date>,
) -> (r: VolumeFilters)
    ensures
        r.exercise_name == exercise,
        r.muscle == muscle,
        r.exercise_type == match type_ {
            Some(t) => Some(spec_db_type(t)),
            None => None,
        },
        r.start_date == if date is Some {
            date
        } else {
            start_date
        },
        r.end_date == if date is Some {
            date
        } else {
            end_date
        },
        r.limit_days == if r.start_date is None && r.end_date is None {
            Some(limit_days)
        } else {
            None
        },
{
    let (first, last) = match date {
        Some(day) => (Some(day), Some(day)),
        None => (start_date, end_date),
    };
    let limit = if first.is_none() && last.is_none() {
        Some(limit_days)
    } else {
        None
    };
    let exercise_type = match type_ {
        Some(t) => Some(cli_type_to_db_type(t)),
        None => None,
    };
    VolumeFilters {
        exercise_name: exercise,
        exercise_type,
        muscle,
        start_date: first,
        end_date: last,
        limit_days: limit,
    }
}

/// Which metrics an exercise logs.
#[derive(Clone, Copy, Debug, PartialEq, Eq, Structural)]
pub struct LogFlags {
    pub weight: bool,
    pub reps: bool,
    pub duration: bool,
    pub distance: bool,
}

/// What an exercise logs where nothing is said: weight and reps for a
/// resistance or bodyweight exercise, duration and distance for cardio.
pub open spec fn spec_default_flags(type_: ExerciseType) -> LogFlags {
    match type_ {
        ExerciseType::Cardio => LogFlags {
            weight: false,
            reps: false,
            duration: true,
            distance: true,
        },
        _ => LogFlags { weight: true, reps: true, duration: false, distance: false },
    }
}

/// A stated flag, or the default where it is not stated.
pub open spec fn stated_or(stated: Option<bool>, default: bool) -> bool {
    match stated {
        Some(flag) => flag,
        None => default,
    }
}

/// What a new exercise logs: each flag as stated, in the order duration,
/// distance, weight, reps, and what is not stated by the type's default.
pub fn log_flags(
    type_: ExerciseType,
    stated: Option<(Option<bool>, Option<bool>, Option<bool>, Option<bool>)>,
) -> (r: LogFlags)
    ensures
        r == match stated {
            Some(flags) => LogFlags {
                weight: stated_or(flags.2, spec_default_flags(type_).weight),
                reps: stated_or(flags.3, spec_default_flags(type_).reps),
                duration: stated_or(flags.0, spec_default_flags(type_).duration),
                distance: stated_or(flags.1, spec_default_flags(type_).distance),
            },
            None => spec_default_flags(type_),
        },
{
    let default = match type_ {
        ExerciseType::Cardio => LogFlags {
            weight: false,
            reps: false,
            duration: true,
            distance: true,
        },
        _ => LogFlags { weight: true, reps: true, duration: false, distance: false },
    };
    match stated {
        Some(flags) => LogFlags {
            weight: match flags.2 {
                Some(flag) => flag,
                None => default.weight,
            },
            reps: match flags.3 {
                Some(flag) => flag,
                None => default.reps,
            },
            duration: match flags.0 {
                Some(flag) => flag,
                None => default.duration,
            },
            distance: match flags.1 {
                Some(flag) => flag,
                None => default.distance,
            },
        },
        None => default,
    }
}

} // verus!
