use task_athlete::calendar::{insert_day, training_days};
use task_athlete::date::Date;
use task_athlete::streak::{compute_streaks, StreakSummary};

fn day(year: i32, month: u32, day: u32) -> Date {
    Date::from_ymd(year, month, day).unwrap()
}

#[test]
fn a_gap_equal_to_the_interval_continues_the_streak() {
    let dates = vec![day(2024, 1, 1), day(2024, 1, 2), day(2024, 1, 4)];
    let summary = compute_streaks(&dates, 2, day(2024, 1, 4));
    assert_eq!(
        summary,
        StreakSummary { current_streak: 3, longest_streak: 3, longest_gap_days: Some(2) }
    );
}

#[test]
fn a_gap_over_the_interval_breaks_the_streak() {
    let dates = vec![day(2024, 1, 1), day(2024, 1, 2), day(2024, 1, 4)];
    let summary = compute_streaks(&dates, 1, day(2024, 1, 4));
    assert_eq!(
        summary,
        StreakSummary { current_streak: 1, longest_streak: 2, longest_gap_days: Some(2) }
    );
}

#[test]
fn a_stale_history_has_no_current_streak() {
    let dates = vec![day(2024, 1, 1), day(2024, 1, 2), day(2024, 1, 3)];
    let stale = compute_streaks(&dates, 1, day(2024, 1, 13));
    assert_eq!(
        stale,
        StreakSummary { current_streak: 0, longest_streak: 3, longest_gap_days: Some(1) }
    );
    let fresh = compute_streaks(&dates, 1, day(2024, 1, 4));
    assert_eq!(
        fresh,
        StreakSummary { current_streak: 3, longest_streak: 3, longest_gap_days: Some(1) }
    );
    let late = compute_streaks(&dates, 1, day(2024, 1, 5));
    assert_eq!(late.current_streak, 0);
    assert_eq!(late.longest_streak, 3);
}

#[test]
fn no_dates_give_zeroes() {
    let summary = compute_streaks(&Vec::new(), 1, day(2024, 1, 1));
    assert_eq!(
        summary,
        StreakSummary { current_streak: 0, longest_streak: 0, longest_gap_days: None }
    );
}

#[test]
fn one_date_within_the_interval() {
    let summary = compute_streaks(&vec![day(2024, 1, 1)], 1, day(2024, 1, 2));
    assert_eq!(
        summary,
        StreakSummary { current_streak: 1, longest_streak: 1, longest_gap_days: None }
    );
    let same_day = compute_streaks(&vec![day(2024, 1, 1)], 1, day(2024, 1, 1));
    assert_eq!(same_day.current_streak, 1);
}

#[test]
fn one_date_out_of_the_interval() {
    let summary = compute_streaks(&vec![day(2024, 1, 1)], 1, day(2024, 1, 3));
    assert_eq!(
        summary,
        StreakSummary { current_streak: 0, longest_streak: 1, longest_gap_days: None }
    );
}

#[test]
fn the_longest_streak_may_lie_in_the_past() {
    let dates = vec![
        day(2024, 1, 1),
        day(2024, 1, 2),
        day(2024, 1, 3),
        day(2024, 1, 4),
        day(2024, 2, 1),
        day(2024, 2, 2),
        day(2024, 3, 10),
    ];
    let summary = compute_streaks(&dates, 1, day(2024, 3, 10));
    assert_eq!(
        summary,
        StreakSummary { current_streak: 1, longest_streak: 4, longest_gap_days: Some(37) }
    );
}

#[test]
fn the_longest_gap_is_not_bounded_by_the_interval() {
    let dates = vec![day(2023, 12, 31), day(2024, 1, 1), day(2024, 12, 31)];
    let summary = compute_streaks(&dates, 400, day(2025, 1, 1));
    assert_eq!(
        summary,
        StreakSummary { current_streak: 3, longest_streak: 3, longest_gap_days: Some(365) }
    );
}

#[test]
fn an_interval_of_zero_makes_every_day_its_own_streak() {
    let dates = vec![day(2024, 1, 1), day(2024, 1, 2)];
    let summary = compute_streaks(&dates, 0, day(2024, 1, 2));
    assert_eq!(
        summary,
        StreakSummary { current_streak: 1, longest_streak: 1, longest_gap_days: Some(1) }
    );
}

#[test]
fn training_days_are_distinct_and_ascending() {
    let dates = vec![
        day(2024, 1, 4),
        day(2024, 1, 1),
        day(2024, 1, 4),
        day(2024, 1, 2),
        day(2024, 1, 1),
    ];
    assert_eq!(training_days(&dates), vec![day(2024, 1, 1), day(2024, 1, 2), day(2024, 1, 4)]);
    assert_eq!(training_days(&Vec::new()), Vec::<Date>::new());
}

#[test]
fn insert_day_keeps_the_order() {
    let mut days = vec![day(2024, 1, 1), day(2024, 1, 5)];
    insert_day(&mut days, day(2024, 1, 3));
    assert_eq!(days, vec![day(2024, 1, 1), day(2024, 1, 3), day(2024, 1, 5)]);
    insert_day(&mut days, day(2024, 1, 3));
    assert_eq!(days, vec![day(2024, 1, 1), day(2024, 1, 3), day(2024, 1, 5)]);
    insert_day(&mut days, day(2023, 12, 31));
    insert_day(&mut days, day(2024, 1, 6));
    assert_eq!(
        days,
        vec![day(2023, 12, 31), day(2024, 1, 1), day(2024, 1, 3), day(2024, 1, 5), day(2024, 1, 6)]
    );
}
