use task_athlete::catalog::Catalog;
use task_athlete::date::Date;
use task_athlete::error::TrackerError;
use task_athlete::model::{Alias, ExerciseDefinition, ExerciseType, Workout};
use task_athlete::volume::{
    aggregate_selected, aggregate_volume, passes, select_workouts, workout_volume, VolumeFilters,
    VolumeRow,
};

fn day(d: u32) -> Date {
    Date::from_ymd(2024, 1, d).unwrap()
}

fn exercise(id: i64, name: &str, kind: ExerciseType, muscles: &[&str]) -> ExerciseDefinition {
    ExerciseDefinition {
        id,
        name: name.to_string(),
        type_: kind,
        muscles: muscles.iter().map(|m| m.to_string()).collect(),
        log_weight: true,
        log_reps: true,
        log_duration: false,
        log_distance: false,
    }
}

fn catalog() -> Catalog {
    Catalog {
        exercises: vec![
            exercise(1, "Bench Press", ExerciseType::Resistance, &["Chest", "triceps"]),
            exercise(2, "Squat", ExerciseType::Resistance, &["legs"]),
            exercise(3, "Pull-up", ExerciseType::BodyWeight, &["back", "biceps"]),
            exercise(4, "Running", ExerciseType::Cardio, &["legs"]),
        ],
        aliases: vec![Alias { alias: "bp".to_string(), exercise_id: 1 }],
    }
}

fn workout(
    id: i64,
    d: u32,
    name: &str,
    kind: ExerciseType,
    sets: Option<i64>,
    reps: Option<i64>,
    weight: Option<i64>,
) -> Workout {
    Workout {
        id,
        date: day(d),
        exercise_name: name.to_string(),
        exercise_type: Some(kind),
        sets,
        reps,
        weight,
        bodyweight: None,
        duration_minutes: None,
        distance: None,
        notes: None,
    }
}

fn log() -> Vec<Workout> {
    let mut pull = workout(4, 3, "Pull-up", ExerciseType::BodyWeight, Some(3), Some(8), Some(5_000));
    pull.bodyweight = Some(70_000);
    let mut run = workout(5, 2, "Running", ExerciseType::Cardio, None, None, None);
    run.duration_minutes = Some(30);
    run.distance = Some(5_000);
    vec![
        workout(1, 1, "Bench Press", ExerciseType::Resistance, Some(3), Some(10), Some(50_000)),
        workout(3, 1, "Squat", ExerciseType::Resistance, Some(3), None, Some(10_000)),
        workout(2, 1, "Bench Press", ExerciseType::Resistance, Some(2), Some(5), Some(60_000)),
        pull,
        run,
    ]
}

fn no_filter() -> VolumeFilters {
    VolumeFilters {
        exercise_name: None,
        exercise_type: None,
        muscle: None,
        start_date: None,
        end_date: None,
        limit_days: None,
    }
}

fn row(d: u32, name: &str, volume: i64) -> VolumeRow {
    VolumeRow { date: day(d), exercise_name: name.to_string(), volume }
}

#[test]
fn volume_is_sets_times_reps_times_weight() {
    let w = workout(1, 1, "Bench Press", ExerciseType::Resistance, Some(3), Some(10), Some(50_000));
    assert_eq!(workout_volume(&w), 1_500_000);
}

#[test]
fn volume_of_a_bodyweight_exercise_uses_the_effective_weight() {
    let mut w = workout(1, 1, "Pull-up", ExerciseType::BodyWeight, Some(3), Some(8), Some(5_000));
    w.bodyweight = Some(70_000);
    assert_eq!(workout_volume(&w), 1_800_000);
    w.bodyweight = None;
    assert_eq!(workout_volume(&w), 120_000);
}

#[test]
fn a_missing_factor_gives_zero_volume() {
    let no_reps = workout(1, 1, "Squat", ExerciseType::Resistance, Some(3), None, Some(10_000));
    assert_eq!(workout_volume(&no_reps), 0);
    let no_sets = workout(1, 1, "Squat", ExerciseType::Resistance, None, Some(5), Some(10_000));
    assert_eq!(workout_volume(&no_sets), 0);
    let no_weight = workout(1, 1, "Squat", ExerciseType::Resistance, Some(3), Some(5), None);
    assert_eq!(workout_volume(&no_weight), 0);
}

#[test]
fn a_huge_volume_saturates() {
    let w = workout(1, 1, "Squat", ExerciseType::Resistance, Some(i64::MAX), Some(2), Some(3));
    assert_eq!(workout_volume(&w), i64::MAX);
}

#[test]
fn a_workout_without_reps_still_has_its_row() {
    let rows = aggregate_volume(&catalog(), &log(), &no_filter()).unwrap();
    assert!(rows.contains(&row(1, "Squat", 0)));
}

#[test]
fn rows_come_by_day_most_recent_first() {
    let rows = aggregate_volume(&catalog(), &log(), &no_filter()).unwrap();
    assert_eq!(
        rows,
        vec![
            row(3, "Pull-up", 1_800_000),
            row(2, "Running", 0),
            row(1, "Bench Press", 2_100_000),
            row(1, "Squat", 0),
        ]
    );
}

#[test]
fn a_day_limit_counts_training_days_not_rows() {
    let mut filters = no_filter();
    filters.limit_days = Some(2);
    let rows = aggregate_volume(&catalog(), &log(), &filters).unwrap();
    assert_eq!(rows, vec![row(3, "Pull-up", 1_800_000), row(2, "Running", 0)]);
    filters.limit_days = Some(3);
    assert_eq!(aggregate_volume(&catalog(), &log(), &filters).unwrap().len(), 4);
    filters.limit_days = Some(100);
    assert_eq!(aggregate_volume(&catalog(), &log(), &filters).unwrap().len(), 4);
    filters.limit_days = Some(0);
    assert_eq!(aggregate_volume(&catalog(), &log(), &filters).unwrap(), Vec::new());
}

#[test]
fn a_day_limit_applies_after_the_other_filters() {
    let mut filters = no_filter();
    filters.exercise_type = Some(ExerciseType::Resistance);
    filters.limit_days = Some(1);
    let rows = aggregate_volume(&catalog(), &log(), &filters).unwrap();
    assert_eq!(rows, vec![row(1, "Bench Press", 2_100_000), row(1, "Squat", 0)]);
}

#[test]
fn filter_by_exercise_identifier() {
    let mut filters = no_filter();
    filters.exercise_name = Some("bp".to_string());
    assert_eq!(
        aggregate_volume(&catalog(), &log(), &filters).unwrap(),
        vec![row(1, "Bench Press", 2_100_000)]
    );
    filters.exercise_name = Some("SQUAT".to_string());
    assert_eq!(aggregate_volume(&catalog(), &log(), &filters).unwrap(), vec![row(1, "Squat", 0)]);
    filters.exercise_name = Some("3".to_string());
    assert_eq!(
        aggregate_volume(&catalog(), &log(), &filters).unwrap(),
        vec![row(3, "Pull-up", 1_800_000)]
    );
}

#[test]
fn an_unknown_exercise_in_the_filter_is_an_error() {
    let mut filters = no_filter();
    filters.exercise_name = Some("Deadlift".to_string());
    assert_eq!(
        aggregate_volume(&catalog(), &log(), &filters),
        Err(TrackerError::ExerciseNotFound("Deadlift".to_string()))
    );
    assert_eq!(
        select_workouts(&catalog(), &log(), &filters),
        Err(TrackerError::ExerciseNotFound("Deadlift".to_string()))
    );
}

#[test]
fn filter_by_type() {
    let mut filters = no_filter();
    filters.exercise_type = Some(ExerciseType::Cardio);
    assert_eq!(aggregate_volume(&catalog(), &log(), &filters).unwrap(), vec![row(2, "Running", 0)]);
}

#[test]
fn filter_by_muscle_ignores_case() {
    let mut filters = no_filter();
    filters.muscle = Some("chest".to_string());
    assert_eq!(
        aggregate_volume(&catalog(), &log(), &filters).unwrap(),
        vec![row(1, "Bench Press", 2_100_000)]
    );
    filters.muscle = Some("LEGS".to_string());
    assert_eq!(
        aggregate_volume(&catalog(), &log(), &filters).unwrap(),
        vec![row(2, "Running", 0), row(1, "Squat", 0)]
    );
    filters.muscle = Some("leg".to_string());
    assert_eq!(aggregate_volume(&catalog(), &log(), &filters).unwrap(), Vec::new());
}

#[test]
fn filter_by_date_range() {
    let mut filters = no_filter();
    filters.start_date = Some(day(2));
    assert_eq!(
        aggregate_volume(&catalog(), &log(), &filters).unwrap(),
        vec![row(3, "Pull-up", 1_800_000), row(2, "Running", 0)]
    );
    filters.end_date = Some(day(2));
    assert_eq!(aggregate_volume(&catalog(), &log(), &filters).unwrap(), vec![row(2, "Running", 0)]);
    filters.start_date = None;
    assert_eq!(
        aggregate_volume(&catalog(), &log(), &filters).unwrap(),
        vec![row(2, "Running", 0), row(1, "Bench Press", 2_100_000), row(1, "Squat", 0)]
    );
    filters.start_date = Some(day(5));
    assert_eq!(aggregate_volume(&catalog(), &log(), &filters).unwrap(), Vec::new());
}

#[test]
fn filters_combine() {
    let mut filters = no_filter();
    filters.muscle = Some("legs".to_string());
    filters.exercise_type = Some(ExerciseType::Resistance);
    assert_eq!(aggregate_volume(&catalog(), &log(), &filters).unwrap(), vec![row(1, "Squat", 0)]);
}

#[test]
fn an_empty_log_gives_no_rows() {
    assert_eq!(aggregate_volume(&catalog(), &Vec::new(), &no_filter()).unwrap(), Vec::new());
}

#[test]
fn selection_marks_each_workout() {
    let mut filters = no_filter();
    filters.exercise_type = Some(ExerciseType::Resistance);
    assert_eq!(
        select_workouts(&catalog(), &log(), &filters),
        Ok(vec![true, true, true, false, false])
    );
    let c = catalog();
    let l = log();
    assert!(passes(&c, &l[0], Some(0), &no_filter()));
    assert!(!passes(&c, &l[1], Some(0), &no_filter()));
    assert!(passes(&c, &l[1], None, &no_filter()));
}

#[test]
fn aggregate_selected_sums_only_what_is_marked() {
    let keep = vec![true, false, false, true, false];
    assert_eq!(
        aggregate_selected(&log(), &keep, None),
        vec![row(3, "Pull-up", 1_800_000), row(1, "Bench Press", 1_500_000)]
    );
}

#[test]
fn a_days_total_saturates_after_summing() {
    let big = workout(1, 1, "Squat", ExerciseType::Resistance, Some(1), Some(1), Some(i64::MAX));
    let mut more = big.clone();
    more.id = 2;
    let mut back = workout(3, 1, "Squat", ExerciseType::Resistance, Some(1), Some(-1), Some(i64::MAX));
    back.id = 3;
    let rows = aggregate_selected(&vec![big.clone(), more.clone()], &vec![true, true], None);
    assert_eq!(rows, vec![row(1, "Squat", i64::MAX)]);
    let rows = aggregate_selected(&vec![big, more, back], &vec![true, true, true], None);
    assert_eq!(rows, vec![row(1, "Squat", i64::MAX)]);
}
