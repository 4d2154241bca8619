use task_athlete::bodyweight::{check_bodyweight, latest_bodyweight};
use task_athlete::catalog::Catalog;
use task_athlete::date::Date;
use task_athlete::error::TrackerError;
use task_athlete::model::{Alias, BodyweightEntry, ExerciseDefinition, ExerciseType, Workout};
use task_athlete::pb::PersonalBests;
use task_athlete::stats::{compute_stats, named_dates, stats_for_name, ExerciseStats, WeeklyAverage};

fn day(d: u32) -> Date {
    Date::from_ymd(2024, 1, d).unwrap()
}

fn catalog() -> Catalog {
    Catalog {
        exercises: vec![
            ExerciseDefinition {
                id: 1,
                name: "Bench Press".to_string(),
                type_: ExerciseType::Resistance,
                muscles: vec!["chest".to_string()],
                log_weight: true,
                log_reps: true,
                log_duration: false,
                log_distance: false,
            },
            ExerciseDefinition {
                id: 2,
                name: "Running".to_string(),
                type_: ExerciseType::Cardio,
                muscles: Vec::new(),
                log_weight: false,
                log_reps: false,
                log_duration: true,
                log_distance: true,
            },
        ],
        aliases: vec![Alias { alias: "bp".to_string(), exercise_id: 1 }],
    }
}

fn bench(id: i64, d: u32, reps: i64, weight: i64) -> Workout {
    Workout {
        id,
        date: day(d),
        exercise_name: "Bench Press".to_string(),
        exercise_type: Some(ExerciseType::Resistance),
        sets: Some(3),
        reps: Some(reps),
        weight: Some(weight),
        bodyweight: None,
        duration_minutes: None,
        distance: None,
        notes: None,
    }
}

fn log() -> Vec<Workout> {
    vec![
        bench(1, 4, 8, 60_000),
        bench(2, 1, 10, 50_000),
        bench(3, 2, 12, 40_000),
        bench(4, 15, 6, 70_000),
        bench(5, 2, 9, 55_000),
    ]
}

#[test]
fn stats_of_an_exercise() {
    let stats = compute_stats(&catalog(), &log(), "bp", 2, day(16)).unwrap();
    assert_eq!(
        stats,
        ExerciseStats {
            canonical_name: "Bench Press".to_string(),
            total_workouts: 5,
            first_workout_date: Some(day(1)),
            last_workout_date: Some(day(15)),
            avg_workouts_per_week: Some(WeeklyAverage { workouts: 5, span_days: 14 }),
            longest_gap_days: Some(11),
            streak_interval_days: 2,
            current_streak: 1,
            longest_streak: 3,
            personal_bests: PersonalBests {
                max_weight: Some(70_000),
                max_reps: Some(12),
                max_duration_minutes: None,
                max_distance: None,
            },
        }
    );
}

#[test]
fn the_weekly_average_is_workouts_over_weeks() {
    let stats = compute_stats(&catalog(), &log(), "1", 1, day(16)).unwrap();
    let average = stats.avg_workouts_per_week.unwrap();
    let per_week = 7.0 * average.workouts as f64 / average.span_days as f64;
    assert_eq!(per_week, 2.5);
}

#[test]
fn stats_of_a_single_day_have_no_average() {
    let one_day = vec![bench(1, 4, 8, 60_000), bench(2, 4, 10, 50_000)];
    let stats = compute_stats(&catalog(), &one_day, "Bench Press", 1, day(4)).unwrap();
    assert_eq!(stats.total_workouts, 2);
    assert_eq!(stats.first_workout_date, Some(day(4)));
    assert_eq!(stats.last_workout_date, Some(day(4)));
    assert_eq!(stats.avg_workouts_per_week, None);
    assert_eq!(stats.longest_gap_days, None);
    assert_eq!(stats.current_streak, 1);
    assert_eq!(stats.longest_streak, 1);
}

#[test]
fn stats_with_a_stale_history() {
    let stats = compute_stats(&catalog(), &log(), "bench press", 1, day(25)).unwrap();
    assert_eq!(stats.current_streak, 0);
    assert_eq!(stats.longest_streak, 2);
    assert_eq!(stats.streak_interval_days, 1);
}

#[test]
fn stats_of_an_unknown_exercise() {
    assert_eq!(
        compute_stats(&catalog(), &log(), "Deadlift", 1, day(16)),
        Err(TrackerError::ExerciseNotFound("Deadlift".to_string()))
    );
}

#[test]
fn stats_of_an_exercise_without_workouts() {
    assert_eq!(
        compute_stats(&catalog(), &log(), "running", 1, day(16)),
        Err(TrackerError::NoWorkoutDataFound("Running".to_string()))
    );
    assert_eq!(
        compute_stats(&catalog(), &Vec::new(), "bp", 1, day(16)),
        Err(TrackerError::NoWorkoutDataFound("Bench Press".to_string()))
    );
}

#[test]
fn stats_for_a_name_without_catalog() {
    assert_eq!(stats_for_name(&log(), &"Squat".to_string(), 1, day(16)), None);
    let stats = stats_for_name(&log(), &"Bench Press".to_string(), 1, day(16)).unwrap();
    assert_eq!(stats.total_workouts, 5);
    assert_eq!(stats.current_streak, 1);
}

#[test]
fn named_dates_keep_the_log_order() {
    let mut l = log();
    l[1].exercise_name = "Running".to_string();
    assert_eq!(
        named_dates(&l, &"Bench Press".to_string()),
        vec![day(4), day(2), day(15), day(2)]
    );
}

#[test]
fn latest_bodyweight_is_the_one_with_the_greatest_timestamp() {
    let entries = vec![
        BodyweightEntry { id: 1, timestamp: 1_700_000_000, weight: 80_000 },
        BodyweightEntry { id: 2, timestamp: 1_700_500_000, weight: 79_500 },
        BodyweightEntry { id: 3, timestamp: 1_700_200_000, weight: 79_800 },
    ];
    assert_eq!(latest_bodyweight(&entries), Some(79_500));
    assert_eq!(latest_bodyweight(&Vec::new()), None);
    let tie = vec![
        BodyweightEntry { id: 1, timestamp: 5, weight: 80_000 },
        BodyweightEntry { id: 2, timestamp: 5, weight: 81_000 },
    ];
    assert_eq!(latest_bodyweight(&tie), Some(80_000));
}

#[test]
fn a_bodyweight_must_be_positive() {
    assert_eq!(check_bodyweight(70_000), Ok(70_000));
    assert_eq!(check_bodyweight(1), Ok(1));
    assert_eq!(
        check_bodyweight(0),
        Err(TrackerError::InvalidInput("Weight must be a positive number.".to_string()))
    );
    assert_eq!(
        check_bodyweight(-5),
        Err(TrackerError::InvalidInput("Weight must be a positive number.".to_string()))
    );
}
