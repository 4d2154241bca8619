use task_athlete::date::Date;
use task_athlete::model::{ExerciseType, Metric, Workout};
use task_athlete::pb::{
    best_of, compare_metric, detect_pb, personal_bests, PbMetricInfo, PersonalBests,
};

fn set(id: i64, name: &str, reps: Option<i64>, weight: Option<i64>) -> Workout {
    Workout {
        id,
        date: Date::from_days(738_000 + id as i32),
        exercise_name: name.to_string(),
        exercise_type: Some(ExerciseType::Resistance),
        sets: Some(3),
        reps,
        weight,
        bodyweight: None,
        duration_minutes: None,
        distance: None,
        notes: None,
    }
}

fn run(id: i64, minutes: Option<i64>, metres: Option<i64>) -> Workout {
    Workout {
        id,
        date: Date::from_days(738_000 + id as i32),
        exercise_name: "Running".to_string(),
        exercise_type: Some(ExerciseType::Cardio),
        sets: None,
        reps: None,
        weight: None,
        bodyweight: None,
        duration_minutes: minutes,
        distance: metres,
        notes: None,
    }
}

#[test]
fn equal_reps_are_no_new_best() {
    let history = vec![set(1, "Bench Press", Some(8), Some(50_000)), set(2, "Bench Press", Some(10), Some(40_000))];
    let new = set(3, "Bench Press", Some(10), Some(30_000));
    let info = detect_pb(&history, &new);
    assert_eq!(info.reps.achieved, false);
    assert_eq!(info.reps.previous_value, Some(10));
    assert_eq!(info.reps.new_value, Some(10));
}

#[test]
fn one_more_rep_is_a_new_best() {
    let history = vec![set(1, "Bench Press", Some(8), Some(50_000)), set(2, "Bench Press", Some(10), Some(40_000))];
    let new = set(3, "Bench Press", Some(11), Some(30_000));
    let info = detect_pb(&history, &new);
    assert_eq!(
        info.reps,
        PbMetricInfo { achieved: true, new_value: Some(11), previous_value: Some(10) }
    );
    assert_eq!(
        info.weight,
        PbMetricInfo { achieved: false, new_value: Some(30_000), previous_value: Some(50_000) }
    );
}

#[test]
fn first_duration_ever_is_a_best() {
    let history = vec![run(1, None, Some(5_000)), run(2, None, Some(6_000))];
    let new = run(3, Some(20), Some(4_000));
    let info = detect_pb(&history, &new);
    assert_eq!(
        info.duration,
        PbMetricInfo { achieved: true, new_value: Some(20), previous_value: None }
    );
    assert_eq!(
        info.distance,
        PbMetricInfo { achieved: false, new_value: Some(4_000), previous_value: Some(6_000) }
    );
    assert_eq!(info.weight, PbMetricInfo { achieved: false, new_value: None, previous_value: None });
    assert_eq!(info.reps, PbMetricInfo { achieved: false, new_value: None, previous_value: None });
}

#[test]
fn first_workout_of_an_exercise_sets_every_logged_metric() {
    let history: Vec<Workout> = Vec::new();
    let new = set(1, "Squat", Some(5), Some(100_000));
    let info = detect_pb(&history, &new);
    assert!(info.weight.achieved);
    assert!(info.reps.achieved);
    assert!(!info.duration.achieved);
    assert!(!info.distance.achieved);
    assert_eq!(info.weight.previous_value, None);
    assert_eq!(info.reps.previous_value, None);
}

#[test]
fn other_exercises_do_not_count() {
    let history = vec![set(1, "Squat", Some(20), Some(200_000)), set(2, "Bench Press", Some(8), Some(50_000))];
    let new = set(3, "Bench Press", Some(9), Some(55_000));
    let info = detect_pb(&history, &new);
    assert_eq!(info.reps, PbMetricInfo { achieved: true, new_value: Some(9), previous_value: Some(8) });
    assert_eq!(
        info.weight,
        PbMetricInfo { achieved: true, new_value: Some(55_000), previous_value: Some(50_000) }
    );
}

#[test]
fn the_new_record_itself_is_not_history() {
    let new = set(3, "Bench Press", Some(12), Some(60_000));
    let history = vec![set(1, "Bench Press", Some(8), Some(50_000)), new.clone()];
    let info = detect_pb(&history, &new);
    assert_eq!(info.reps, PbMetricInfo { achieved: true, new_value: Some(12), previous_value: Some(8) });
    assert_eq!(
        info.weight,
        PbMetricInfo { achieved: true, new_value: Some(60_000), previous_value: Some(50_000) }
    );
}

#[test]
fn weight_bests_use_the_effective_weight() {
    let mut earlier = set(1, "Pull-up", Some(8), Some(0));
    earlier.exercise_type = Some(ExerciseType::BodyWeight);
    earlier.bodyweight = Some(80_000);
    let mut new = set(2, "Pull-up", Some(8), Some(5_000));
    new.exercise_type = Some(ExerciseType::BodyWeight);
    new.bodyweight = Some(70_000);
    let info = detect_pb(&vec![earlier], &new);
    assert_eq!(
        info.weight,
        PbMetricInfo { achieved: false, new_value: Some(75_000), previous_value: Some(80_000) }
    );
}

#[test]
fn compare_metric_is_strict() {
    assert_eq!(
        compare_metric(Some(10), Some(10)),
        PbMetricInfo { achieved: false, new_value: Some(10), previous_value: Some(10) }
    );
    assert_eq!(
        compare_metric(Some(10), Some(11)),
        PbMetricInfo { achieved: true, new_value: Some(11), previous_value: Some(10) }
    );
    assert_eq!(
        compare_metric(Some(10), Some(9)),
        PbMetricInfo { achieved: false, new_value: Some(9), previous_value: Some(10) }
    );
    assert_eq!(
        compare_metric(None, Some(-4)),
        PbMetricInfo { achieved: true, new_value: Some(-4), previous_value: None }
    );
    assert_eq!(
        compare_metric(Some(10), None),
        PbMetricInfo { achieved: false, new_value: None, previous_value: Some(10) }
    );
    assert_eq!(
        compare_metric(None, None),
        PbMetricInfo { achieved: false, new_value: None, previous_value: None }
    );
}

#[test]
fn best_of_is_the_maximum_of_what_counts() {
    let history = vec![
        set(1, "Bench Press", Some(8), Some(50_000)),
        set(2, "Bench Press", None, Some(70_000)),
        set(3, "Squat", Some(30), Some(90_000)),
        set(4, "Bench Press", Some(12), None),
    ];
    let name = "Bench Press".to_string();
    assert_eq!(best_of(&history, &name, None, Metric::Reps), Some(12));
    assert_eq!(best_of(&history, &name, None, Metric::Weight), Some(70_000));
    assert_eq!(best_of(&history, &name, Some(4), Metric::Reps), Some(8));
    assert_eq!(best_of(&history, &name, Some(2), Metric::Weight), Some(50_000));
    assert_eq!(best_of(&history, &name, None, Metric::Duration), None);
    assert_eq!(best_of(&history, &"Deadlift".to_string(), None, Metric::Reps), None);
    assert_eq!(best_of(&Vec::new(), &name, None, Metric::Reps), None);
}

#[test]
fn personal_bests_cover_the_whole_history() {
    let history = vec![
        run(1, Some(30), Some(5_000)),
        run(2, Some(25), Some(6_500)),
        set(3, "Bench Press", Some(8), Some(50_000)),
        run(4, None, None),
    ];
    assert_eq!(
        personal_bests(&history, &"Running".to_string()),
        PersonalBests {
            max_weight: None,
            max_reps: None,
            max_duration_minutes: Some(30),
            max_distance: Some(6_500),
        }
    );
    assert_eq!(
        personal_bests(&history, &"Bench Press".to_string()),
        PersonalBests {
            max_weight: Some(50_000),
            max_reps: Some(8),
            max_duration_minutes: None,
            max_distance: None,
        }
    );
}
