use task_athlete::catalog::Catalog;
use task_athlete::config::PbNotificationConfig;
use task_athlete::date::Date;
use task_athlete::error::TrackerError;
use task_athlete::history::{listed_places, nth_last, places_on, workouts_on_nth_last_day};
use task_athlete::model::{
    Alias, BodyweightEntry, ExerciseDefinition, ExerciseType, Units, Workout,
};
use task_athlete::pb::{PBInfo, PbMetricInfo, PersonalBests};
use task_athlete::report::{
    alias_headers, average_hundredths, average_text, bodyweight_cells, bodyweight_headers,
    count_text, date_text, distance_abbr, distance_hundredths, distance_text, exercise_cells,
    exercise_headers, exercise_type_text, hundredths_text, integer_or, integer_text, joined,
    optional_date_text, pb_messages, pb_rows, round_div, stats_csv_rows, stats_rows,
    streak_interval_label, volume_cells, volume_headers, weight_abbr, weight_hundredths,
    weight_or, weight_text, workout_cells, workout_headers,
};
use task_athlete::stats::{ExerciseStats, WeeklyAverage};
use task_athlete::volume::VolumeRow;

fn day(d: u32) -> Date {
    Date::from_ymd(2024, 1, d).unwrap()
}

fn texts(items: &[&str]) -> Vec<String> {
    items.iter().map(|s| s.to_string()).collect()
}

fn pairs(items: &[(&str, &str)]) -> Vec<Vec<String>> {
    items.iter().map(|(a, b)| vec![a.to_string(), b.to_string()]).collect()
}

fn stats() -> ExerciseStats {
    ExerciseStats {
        canonical_name: "Bench Press".to_string(),
        total_workouts: 5,
        first_workout_date: Some(day(1)),
        last_workout_date: Some(day(15)),
        avg_workouts_per_week: Some(WeeklyAverage { workouts: 5, span_days: 14 }),
        longest_gap_days: Some(11),
        streak_interval_days: 2,
        current_streak: 1,
        longest_streak: 3,
        personal_bests: PersonalBests {
            max_weight: Some(70_000),
            max_reps: Some(12),
            max_duration_minutes: None,
            max_distance: Some(5_000),
        },
    }
}

#[test]
fn round_div_rounds_half_away_from_zero() {
    assert_eq!(round_div(0, 10), 0);
    assert_eq!(round_div(4, 10), 0);
    assert_eq!(round_div(5, 10), 1);
    assert_eq!(round_div(14, 10), 1);
    assert_eq!(round_div(15, 10), 2);
    assert_eq!(round_div(-4, 10), 0);
    assert_eq!(round_div(-5, 10), -1);
    assert_eq!(round_div(-15, 10), -2);
    assert_eq!(round_div(7, 1), 7);
    assert_eq!(round_div(-7, 1), -7);
    assert_eq!(round_div(1, 3), 0);
    assert_eq!(round_div(2, 3), 1);
    assert_eq!(round_div(700, 3), 233);
}

#[test]
fn weights_are_written_with_two_decimals() {
    assert_eq!(weight_text(50_000), "50.00");
    assert_eq!(weight_text(12_344), "12.34");
    assert_eq!(weight_text(12_345), "12.35");
    assert_eq!(weight_text(-12_345), "-12.35");
    assert_eq!(weight_text(5), "0.01");
    assert_eq!(weight_text(4), "0.00");
    assert_eq!(weight_text(-4), "0.00");
    assert_eq!(weight_text(-5), "-0.01");
    assert_eq!(weight_text(70), "0.07");
    assert_eq!(weight_text(0), "0.00");
    assert_eq!(weight_hundredths(1_500_000), 150_000);
    assert_eq!(weight_text(i64::MAX), "9223372036854775.81");
    assert_eq!(weight_text(i64::MIN), "-9223372036854775.81");
}

#[test]
fn hundredths_are_padded() {
    assert_eq!(hundredths_text(7), "0.07");
    assert_eq!(hundredths_text(10), "0.10");
    assert_eq!(hundredths_text(100), "1.00");
    assert_eq!(hundredths_text(-1), "-0.01");
    assert_eq!(hundredths_text(-199), "-1.99");
    assert_eq!(hundredths_text(i64::MIN), "-92233720368547758.08");
    assert_eq!(hundredths_text(i64::MAX), "92233720368547758.07");
}

#[test]
fn distances_are_shown_in_the_unit() {
    assert_eq!(distance_text(5_000, Units::Metric), "5.00");
    assert_eq!(distance_text(5_000, Units::Imperial), "3.11");
    assert_eq!(distance_text(1_609, Units::Imperial), "1.00");
    assert_eq!(distance_text(42_195, Units::Metric), "42.20");
    assert_eq!(distance_text(42_195, Units::Imperial), "26.22");
    assert_eq!(distance_hundredths(-5_000, Units::Imperial), -311);
    assert_eq!(distance_hundredths(i64::MAX, Units::Imperial), 573_113_590_591_248_890);
    assert_eq!(distance_hundredths(i64::MAX, Units::Metric), 922_337_203_685_477_581);
}

#[test]
fn the_average_is_seven_workouts_per_span_day() {
    assert_eq!(average_hundredths(WeeklyAverage { workouts: 5, span_days: 14 }), Some(250));
    assert_eq!(average_hundredths(WeeklyAverage { workouts: 1, span_days: 3 }), Some(233));
    assert_eq!(average_hundredths(WeeklyAverage { workouts: 2, span_days: 3 }), Some(467));
    assert_eq!(average_hundredths(WeeklyAverage { workouts: 2, span_days: 0 }), None);
    assert_eq!(average_hundredths(WeeklyAverage { workouts: 2, span_days: -3 }), None);
    assert_eq!(
        average_hundredths(WeeklyAverage { workouts: usize::MAX, span_days: 1 }),
        Some(i64::MAX)
    );
    assert_eq!(average_text(Some(WeeklyAverage { workouts: 5, span_days: 14 })), "2.50");
    assert_eq!(average_text(None), "N/A");
    assert_eq!(average_text(Some(WeeklyAverage { workouts: 5, span_days: 0 })), "N/A");
}

#[test]
fn small_texts() {
    assert_eq!(integer_text(-42), "-42");
    assert_eq!(integer_text(i64::MIN), "-9223372036854775808");
    assert_eq!(count_text(0), "0");
    assert_eq!(count_text(usize::MAX), usize::MAX.to_string());
    assert_eq!(weight_abbr(Units::Metric), "kg");
    assert_eq!(weight_abbr(Units::Imperial), "lbs");
    assert_eq!(distance_abbr(Units::Metric), "km");
    assert_eq!(distance_abbr(Units::Imperial), "mi");
    assert_eq!(exercise_type_text(ExerciseType::Resistance), "Resistance");
    assert_eq!(exercise_type_text(ExerciseType::Cardio), "Cardio");
    assert_eq!(exercise_type_text(ExerciseType::BodyWeight), "BodyWeight");
    assert_eq!(streak_interval_label(1), "(Daily)");
    assert_eq!(streak_interval_label(2), "(2-day Interval)");
    assert_eq!(streak_interval_label(0), "(0-day Interval)");
    assert_eq!(integer_or(Some(3), false), "3");
    assert_eq!(integer_or(None, false), "-");
    assert_eq!(integer_or(None, true), "");
    assert_eq!(weight_or(Some(2_500), true), "2.50");
    assert_eq!(weight_or(None, false), "-");
    assert_eq!(weight_or(None, true), "");
    assert_eq!(joined(&texts(&["chest", "triceps", "shoulders"])), "chest,triceps,shoulders");
    assert_eq!(joined(&texts(&["legs"])), "legs");
    assert_eq!(joined(&Vec::new()), "");
}

#[test]
fn dates_are_written_year_month_day() {
    assert_eq!(date_text(Date::from_ymd(2023, 10, 27).unwrap()), "2023-10-27");
    assert_eq!(date_text(Date::from_ymd(2024, 2, 29).unwrap()), "2024-02-29");
    assert_eq!(date_text(Date::from_days(i32::MAX)), "N/A");
    assert_eq!(optional_date_text(Some(day(5))), "2024-01-05");
    assert_eq!(optional_date_text(None), "N/A");
}

#[test]
fn the_statistics_table() {
    assert_eq!(
        stats_rows(&stats()),
        pairs(&[
            ("Total Workouts", "5"),
            ("First Workout", "2024-01-01"),
            ("Last Workout", "2024-01-15"),
            ("Avg Workouts / Week", "2.50"),
            ("Longest Gap", "11 days"),
            ("Current Streak (2-day Interval)", "1"),
            ("Longest Streak (2-day Interval)", "3"),
        ])
    );
    let mut bare = stats();
    bare.first_workout_date = None;
    bare.last_workout_date = None;
    bare.avg_workouts_per_week = None;
    bare.longest_gap_days = None;
    bare.streak_interval_days = 1;
    assert_eq!(
        stats_rows(&bare),
        pairs(&[
            ("Total Workouts", "5"),
            ("First Workout", "N/A"),
            ("Last Workout", "N/A"),
            ("Avg Workouts / Week", "N/A"),
            ("Longest Gap", "N/A"),
            ("Current Streak (Daily)", "1"),
            ("Longest Streak (Daily)", "3"),
        ])
    );
}

#[test]
fn the_bests_table_shows_what_there_is() {
    assert_eq!(
        pb_rows(&stats().personal_bests, Units::Metric),
        pairs(&[("Max Weight", "70.00 kg"), ("Max Reps", "12"), ("Max Distance", "5.00 km")])
    );
    assert_eq!(
        pb_rows(&stats().personal_bests, Units::Imperial),
        pairs(&[("Max Weight", "70.00 lbs"), ("Max Reps", "12"), ("Max Distance", "3.11 mi")])
    );
    let only_time = PersonalBests {
        max_weight: None,
        max_reps: None,
        max_duration_minutes: Some(45),
        max_distance: None,
    };
    assert_eq!(pb_rows(&only_time, Units::Metric), pairs(&[("Max Duration", "45 min")]));
    let none = PersonalBests { max_weight: None, max_reps: None, max_duration_minutes: None, max_distance: None };
    assert_eq!(pb_rows(&none, Units::Metric), Vec::<Vec<String>>::new());
}

#[test]
fn the_statistics_in_csv() {
    assert_eq!(
        stats_csv_rows(&stats(), Units::Imperial),
        pairs(&[
            ("Statistic", "Value"),
            ("Exercise_Name", "Bench Press"),
            ("Total_Workouts", "5"),
            ("First_Workout", "2024-01-01"),
            ("Last_Workout", "2024-01-15"),
            ("Avg_Workouts_Per_Week", "2.50"),
            ("Longest_Gap_Days", "11"),
            ("Streak_Interval_Days", "2"),
            ("Current_Streak", "1"),
            ("Longest_Streak", "3"),
            ("PB_Max_Weight_lbs", "70.00"),
            ("PB_Max_Reps", "12"),
            ("PB_Max_Duration_min", ""),
            ("PB_Max_Distance_mi", "3.11"),
        ])
    );
    let mut bare = stats();
    bare.longest_gap_days = None;
    bare.personal_bests = PersonalBests { max_weight: None, max_reps: None, max_duration_minutes: Some(30), max_distance: None };
    let rows = stats_csv_rows(&bare, Units::Metric);
    assert_eq!(rows[6], texts(&["Longest_Gap_Days", "N/A"]));
    assert_eq!(rows[10], texts(&["PB_Max_Weight_kg", ""]));
    assert_eq!(rows[11], texts(&["PB_Max_Reps", ""]));
    assert_eq!(rows[12], texts(&["PB_Max_Duration_min", "30"]));
    assert_eq!(rows[13], texts(&["PB_Max_Distance_km", ""]));
}

#[test]
fn the_announcement_lines() {
    let pb = PBInfo {
        weight: PbMetricInfo { achieved: true, new_value: Some(75_000), previous_value: Some(70_500) },
        reps: PbMetricInfo { achieved: true, new_value: Some(11), previous_value: Some(10) },
        duration: PbMetricInfo { achieved: true, new_value: Some(20), previous_value: None },
        distance: PbMetricInfo { achieved: true, new_value: Some(5_000), previous_value: Some(4_000) },
    };
    let all = PbNotificationConfig {
        enabled: Some(true),
        notify_weight: true,
        notify_reps: true,
        notify_duration: true,
        notify_distance: true,
    };
    assert_eq!(
        pb_messages(&pb, Units::Metric, &all),
        texts(&[
            "New Max Weight: 75.00 kg (Previous: 70.50)",
            "New Max Reps: 11 (Previous: 10)",
            "New Max Duration: 20 min (Previous: N/A)",
            "New Max Distance: 5.00 km (Previous: 4.00 km)",
        ])
    );
    let some = PbNotificationConfig { notify_weight: false, notify_duration: false, ..all };
    assert_eq!(
        pb_messages(&pb, Units::Imperial, &some),
        texts(&["New Max Reps: 11 (Previous: 10)", "New Max Distance: 3.11 mi (Previous: 2.49 mi)"])
    );
    let first = PBInfo {
        weight: PbMetricInfo { achieved: true, new_value: Some(20_000), previous_value: None },
        reps: PbMetricInfo { achieved: false, new_value: Some(5), previous_value: Some(8) },
        duration: PbMetricInfo { achieved: false, new_value: None, previous_value: None },
        distance: PbMetricInfo { achieved: true, new_value: Some(1_000), previous_value: None },
    };
    assert_eq!(
        pb_messages(&first, Units::Metric, &all),
        texts(&[
            "New Max Weight: 20.00 kg (Previous: N/A)",
            "New Max Distance: 1.00 km (Previous: N/A)",
        ])
    );
    let none = PBInfo {
        weight: PbMetricInfo { achieved: false, new_value: None, previous_value: None },
        reps: PbMetricInfo { achieved: false, new_value: None, previous_value: None },
        duration: PbMetricInfo { achieved: false, new_value: None, previous_value: None },
        distance: PbMetricInfo { achieved: false, new_value: None, previous_value: None },
    };
    assert_eq!(pb_messages(&none, Units::Metric, &all), Vec::<String>::new());
}

#[test]
fn the_cells_of_a_workout() {
    let w = Workout {
        id: 12,
        date: day(3),
        exercise_name: "Pull-up".to_string(),
        exercise_type: Some(ExerciseType::BodyWeight),
        sets: Some(3),
        reps: None,
        weight: Some(5_000),
        bodyweight: Some(70_000),
        duration_minutes: None,
        distance: Some(1_500),
        notes: None,
    };
    assert_eq!(
        workout_cells(&w, Units::Metric, "2024-01-03 12:00", false),
        texts(&["12", "2024-01-03 12:00", "Pull-up", "BodyWeight", "3", "-", "75.00", "-", "1.50", "-"])
    );
    assert_eq!(
        workout_cells(&w, Units::Imperial, "2024-01-03T12:00:00+00:00", true),
        texts(&["12", "2024-01-03T12:00:00+00:00", "Pull-up", "BodyWeight", "3", "", "75.00", "", "0.93", ""])
    );
    let mut other = w.clone();
    other.exercise_type = None;
    other.notes = Some("easy".to_string());
    other.distance = None;
    other.reps = Some(8);
    other.duration_minutes = Some(15);
    assert_eq!(
        workout_cells(&other, Units::Metric, "t", false),
        texts(&["12", "t", "Pull-up", "-", "3", "8", "5.00", "15", "-", "easy"])
    );
}

#[test]
fn the_headers_of_the_reports() {
    assert_eq!(
        workout_headers(Units::Metric, false),
        texts(&[
            "ID",
            "Timestamp (Local)",
            "Exercise",
            "Type",
            "Sets",
            "Reps",
            "Weight (kg)",
            "Duration (min)",
            "Distance (km)",
            "Notes",
        ])
    );
    assert_eq!(
        workout_headers(Units::Imperial, true),
        texts(&[
            "ID",
            "Timestamp_UTC",
            "Exercise",
            "Type",
            "Sets",
            "Reps",
            "Weight_lbs",
            "Duration_min",
            "Distance_mi",
            "Notes",
        ])
    );
    assert_eq!(exercise_headers(), texts(&["ID", "Name", "Type", "Muscles"]));
    assert_eq!(alias_headers(false), texts(&["Alias", "Canonical Exercise Name"]));
    assert_eq!(alias_headers(true), texts(&["Alias", "Canonical_Exercise_Name"]));
    assert_eq!(
        volume_headers(Units::Metric, false),
        texts(&["Date", "Exercise", "Volume (Sets*Reps*Weight kg)"])
    );
    assert_eq!(
        volume_headers(Units::Imperial, true),
        texts(&["Date", "Exercise", "Volume_Sets*Reps*Weight_lbs"])
    );
    assert_eq!(
        bodyweight_headers(Units::Metric, false),
        texts(&["Id", "Timestamp (Local)", "Weight (kg)"])
    );
    assert_eq!(bodyweight_headers(Units::Imperial, true), texts(&["Id", "Timestamp_UTC", "Weight_lbs"]));
}

#[test]
fn the_cells_of_the_other_reports() {
    let e = ExerciseDefinition {
        id: 4,
        name: "Bench Press".to_string(),
        type_: ExerciseType::Resistance,
        muscles: texts(&["chest", "triceps"]),
        log_weight: true,
        log_reps: true,
        log_duration: false,
        log_distance: false,
    };
    assert_eq!(exercise_cells(&e, false), texts(&["4", "Bench Press", "Resistance", "chest,triceps"]));
    let mut bare = e.clone();
    bare.muscles = Vec::new();
    assert_eq!(exercise_cells(&bare, false), texts(&["4", "Bench Press", "Resistance", "-"]));
    assert_eq!(exercise_cells(&bare, true), texts(&["4", "Bench Press", "Resistance", ""]));
    let row = VolumeRow { date: day(1), exercise_name: "Squat".to_string(), volume: 2_100_000 };
    assert_eq!(volume_cells(&row), texts(&["2024-01-01", "Squat", "2100.00"]));
    let entry = BodyweightEntry { id: 3, timestamp: 1_700_000_000, weight: 79_456 };
    assert_eq!(bodyweight_cells(&entry, "2023-11-14 22:13"), texts(&["3", "2023-11-14 22:13", "79.46"]));
}

#[test]
fn the_nth_last_day_of_an_exercise() {
    let catalog = Catalog {
        exercises: vec![ExerciseDefinition {
            id: 1,
            name: "Squat".to_string(),
            type_: ExerciseType::Resistance,
            muscles: Vec::new(),
            log_weight: true,
            log_reps: true,
            log_duration: false,
            log_distance: false,
        }],
        aliases: vec![Alias { alias: "sq".to_string(), exercise_id: 1 }],
    };
    let log: Vec<Workout> = [(1, 5, "Squat"), (2, 3, "Squat"), (3, 5, "Bench"), (4, 5, "Squat"), (5, 1, "Squat")]
        .iter()
        .map(|(id, d, name)| Workout {
            id: *id,
            date: day(*d),
            exercise_name: name.to_string(),
            exercise_type: None,
            sets: None,
            reps: None,
            weight: None,
            bodyweight: None,
            duration_minutes: None,
            distance: None,
            notes: None,
        })
        .collect();
    assert_eq!(workouts_on_nth_last_day(&catalog, &log, "sq", 1), Ok(vec![0, 3]));
    assert_eq!(workouts_on_nth_last_day(&catalog, &log, "1", 2), Ok(vec![1]));
    assert_eq!(workouts_on_nth_last_day(&catalog, &log, "squat", 3), Ok(vec![4]));
    assert_eq!(workouts_on_nth_last_day(&catalog, &log, "squat", 4), Ok(Vec::new()));
    assert_eq!(workouts_on_nth_last_day(&catalog, &log, "squat", 0), Ok(Vec::new()));
    assert_eq!(
        workouts_on_nth_last_day(&catalog, &log, "Bench", 1),
        Err(TrackerError::ExerciseNotFound("Bench".to_string()))
    );
    let days = vec![day(1), day(3), day(5)];
    assert_eq!(nth_last(&days, 1), Some(day(5)));
    assert_eq!(nth_last(&days, 3), Some(day(1)));
    assert_eq!(nth_last(&days, 4), None);
    assert_eq!(nth_last(&days, 0), None);
    assert_eq!(places_on(&log, &"Bench".to_string(), day(5)), vec![2]);
}

#[test]
fn listed_places_keep_the_last_ones() {
    let keep = vec![true, false, true, true, false, true];
    assert_eq!(listed_places(&keep, None), vec![0, 2, 3, 5]);
    assert_eq!(listed_places(&keep, Some(2)), vec![3, 5]);
    assert_eq!(listed_places(&keep, Some(4)), vec![0, 2, 3, 5]);
    assert_eq!(listed_places(&keep, Some(9)), vec![0, 2, 3, 5]);
    assert_eq!(listed_places(&keep, Some(0)), Vec::<usize>::new());
    assert_eq!(listed_places(&Vec::new(), Some(3)), Vec::<usize>::new());
}
