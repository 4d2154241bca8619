use task_athlete::date::Date;
use task_athlete::model::{ExerciseType, Metric, Workout};
use task_athlete::quantity::{max_opt, saturate, saturating_product3, saturating_sum};

fn workout(kind: Option<ExerciseType>, weight: Option<i64>, bodyweight: Option<i64>) -> Workout {
    Workout {
        id: 1,
        date: Date::from_days(738_000),
        exercise_name: "Pull-up".to_string(),
        exercise_type: kind,
        sets: Some(3),
        reps: Some(8),
        weight,
        bodyweight,
        duration_minutes: Some(12),
        distance: Some(400),
        notes: None,
    }
}

#[test]
fn resistance_weight_is_taken_as_logged() {
    let w = workout(Some(ExerciseType::Resistance), Some(50_000), None);
    assert_eq!(w.calculate_effective_weight(), Some(50_000));
}

#[test]
fn resistance_ignores_a_captured_bodyweight() {
    let w = workout(Some(ExerciseType::Resistance), Some(50_000), Some(70_000));
    assert_eq!(w.calculate_effective_weight(), Some(50_000));
}

#[test]
fn resistance_without_weight_has_none() {
    let w = workout(Some(ExerciseType::Resistance), None, Some(70_000));
    assert_eq!(w.calculate_effective_weight(), None);
    let c = workout(Some(ExerciseType::Cardio), None, None);
    assert_eq!(c.calculate_effective_weight(), None);
    let u = workout(None, Some(20_000), Some(70_000));
    assert_eq!(u.calculate_effective_weight(), Some(20_000));
}

#[test]
fn bodyweight_adds_the_sample() {
    let w = workout(Some(ExerciseType::BodyWeight), Some(5_000), Some(70_000));
    assert_eq!(w.calculate_effective_weight(), Some(75_000));
}

#[test]
fn bodyweight_without_sample_counts_the_added_weight_alone() {
    let w = workout(Some(ExerciseType::BodyWeight), Some(5_000), None);
    assert_eq!(w.calculate_effective_weight(), Some(5_000));
}

#[test]
fn bodyweight_without_anything_is_zero() {
    let w = workout(Some(ExerciseType::BodyWeight), None, None);
    assert_eq!(w.calculate_effective_weight(), Some(0));
    let only_base = workout(Some(ExerciseType::BodyWeight), None, Some(70_000));
    assert_eq!(only_base.calculate_effective_weight(), Some(70_000));
}

#[test]
fn bodyweight_with_assistance_subtracts() {
    let w = workout(Some(ExerciseType::BodyWeight), Some(-20_000), Some(70_000));
    assert_eq!(w.calculate_effective_weight(), Some(50_000));
}

#[test]
fn bodyweight_sum_saturates() {
    let w = workout(Some(ExerciseType::BodyWeight), Some(i64::MAX), Some(1));
    assert_eq!(w.calculate_effective_weight(), Some(i64::MAX));
    let v = workout(Some(ExerciseType::BodyWeight), Some(i64::MIN), Some(-1));
    assert_eq!(v.calculate_effective_weight(), Some(i64::MIN));
}

#[test]
fn metric_values_read_the_workout() {
    let w = workout(Some(ExerciseType::BodyWeight), Some(5_000), Some(70_000));
    assert_eq!(w.metric_value(Metric::Weight), Some(75_000));
    assert_eq!(w.metric_value(Metric::Reps), Some(8));
    assert_eq!(w.metric_value(Metric::Duration), Some(12));
    assert_eq!(w.metric_value(Metric::Distance), Some(400));
}

#[test]
fn saturate_clamps_to_i64() {
    assert_eq!(saturate(0), 0);
    assert_eq!(saturate(-17), -17);
    assert_eq!(saturate(i64::MAX as i128), i64::MAX);
    assert_eq!(saturate(i64::MAX as i128 + 1), i64::MAX);
    assert_eq!(saturate(i64::MIN as i128), i64::MIN);
    assert_eq!(saturate(i64::MIN as i128 - 1), i64::MIN);
    assert_eq!(saturate(i128::MAX), i64::MAX);
    assert_eq!(saturate(i128::MIN), i64::MIN);
}

#[test]
fn saturating_sum_is_exact_in_range() {
    assert_eq!(saturating_sum(70_000, 5_000), 75_000);
    assert_eq!(saturating_sum(-3, 3), 0);
    assert_eq!(saturating_sum(i64::MAX, 1), i64::MAX);
    assert_eq!(saturating_sum(i64::MIN, -1), i64::MIN);
    assert_eq!(saturating_sum(i64::MAX, i64::MIN), -1);
}

#[test]
fn saturating_product3_is_exact_in_range() {
    assert_eq!(saturating_product3(2, 3, 4), 24);
    assert_eq!(saturating_product3(3, 10, 50_000), 1_500_000);
    assert_eq!(saturating_product3(-2, 3, 4), -24);
    assert_eq!(saturating_product3(-2, -3, 4), 24);
    assert_eq!(saturating_product3(0, i64::MAX, i64::MAX), 0);
    assert_eq!(saturating_product3(i64::MAX, i64::MAX, 0), 0);
    assert_eq!(saturating_product3(i64::MAX, 1, 1), i64::MAX);
    assert_eq!(saturating_product3(i64::MIN, 1, 1), i64::MIN);
}

#[test]
fn saturating_product3_saturates_once() {
    assert_eq!(saturating_product3(i64::MAX, 2, 1), i64::MAX);
    assert_eq!(saturating_product3(i64::MAX, 2, -1), i64::MIN);
    assert_eq!(saturating_product3(i64::MIN, -1, 1), i64::MAX);
    assert_eq!(saturating_product3(i64::MIN, -1, -1), i64::MIN);
    assert_eq!(saturating_product3(i64::MIN, 2, 1), i64::MIN);
    assert_eq!(saturating_product3(i64::MIN, 2, -1), i64::MAX);
    assert_eq!(saturating_product3(3_000_000_000, 3_000_000_000, 2), i64::MAX);
    assert_eq!(saturating_product3(-3_000_000_000, 3_000_000_000, 2), i64::MIN);
    assert_eq!(saturating_product3(3_000_000_000, 3_000_000_000, 1), 9_000_000_000_000_000_000);
    assert_eq!(saturating_product3(4_000_000_000, 4_000_000_000, 1), i64::MAX);
    // The product of the first two exceeds the range, the third brings nothing back.
    assert_eq!(saturating_product3(i64::MAX, i64::MAX, 1), i64::MAX);
    assert_eq!(saturating_product3(i64::MAX, i64::MAX, -1), i64::MIN);
}

#[test]
fn max_opt_prefers_a_present_value() {
    assert_eq!(max_opt(None, None), None);
    assert_eq!(max_opt(Some(3), None), Some(3));
    assert_eq!(max_opt(None, Some(-3)), Some(-3));
    assert_eq!(max_opt(Some(3), Some(4)), Some(4));
    assert_eq!(max_opt(Some(4), Some(3)), Some(4));
    assert_eq!(max_opt(Some(4), Some(4)), Some(4));
}
