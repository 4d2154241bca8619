use task_athlete::cli::{
    apply_pb_reply, bodyweight_source, cli_type_to_db_type, cli_units_to_db_units, convert_flags,
    effective_list_date, effective_list_limit, muscles_update, needs_bodyweight,
    read_bodyweight_reply, read_pb_reply, volume_filters, workout_identifier, workout_time,
    BodyweightReply, BodyweightSource, ExerciseTypeCli, UnitsCli, WorkoutTime,
};
use task_athlete::config::{
    color_name, parse_color, plan_pb_notice, relevant_pb_achieved, Config, PbNotice,
    PbNotificationConfig, ThemeColor,
};
use task_athlete::date::Date;
use task_athlete::error::TrackerError;
use task_athlete::model::{ExerciseType, Units};
use task_athlete::pb::{PBInfo, PbMetricInfo};
use task_athlete::table::{
    banner_layout, is_cell_empty, kept_cells, layout_table, should_display_pb, used_columns,
    BannerLayout, TableLayout,
};

fn day(d: u32) -> Date {
    Date::from_ymd(2024, 1, d).unwrap()
}

fn texts(items: &[&str]) -> Vec<String> {
    items.iter().map(|s| s.to_string()).collect()
}

fn achieved(new: i64, previous: Option<i64>) -> PbMetricInfo<i64> {
    PbMetricInfo { achieved: true, new_value: Some(new), previous_value: previous }
}

fn nothing() -> PbMetricInfo<i64> {
    PbMetricInfo { achieved: false, new_value: None, previous_value: None }
}

#[test]
fn convert_flags_without_any_flag() {
    assert_eq!(convert_flags(false, false, false, false), None);
}

#[test]
fn convert_flags_orders_duration_distance_weight_reps() {
    assert_eq!(
        convert_flags(true, false, false, false),
        Some((Some(false), Some(false), Some(true), Some(false)))
    );
    assert_eq!(
        convert_flags(false, true, false, false),
        Some((Some(false), Some(false), Some(false), Some(true)))
    );
    assert_eq!(
        convert_flags(false, false, true, false),
        Some((Some(true), Some(false), Some(false), Some(false)))
    );
    assert_eq!(
        convert_flags(false, false, false, true),
        Some((Some(false), Some(true), Some(false), Some(false)))
    );
    assert_eq!(
        convert_flags(true, true, true, true),
        Some((Some(true), Some(true), Some(true), Some(true)))
    );
}

#[test]
fn cli_values_map_to_their_namesakes() {
    assert_eq!(cli_type_to_db_type(ExerciseTypeCli::Resistance), ExerciseType::Resistance);
    assert_eq!(cli_type_to_db_type(ExerciseTypeCli::Cardio), ExerciseType::Cardio);
    assert_eq!(cli_type_to_db_type(ExerciseTypeCli::BodyWeight), ExerciseType::BodyWeight);
    assert_eq!(cli_units_to_db_units(UnitsCli::Metric), Units::Metric);
    assert_eq!(cli_units_to_db_units(UnitsCli::Imperial), Units::Imperial);
}

#[test]
fn muscles_update_tells_absent_blank_and_given() {
    assert_eq!(muscles_update(None), None);
    assert_eq!(muscles_update(Some("")), Some(None));
    assert_eq!(muscles_update(Some("  \t")), Some(None));
    assert_eq!(muscles_update(Some(" chest,triceps ")), Some(Some("chest,triceps".to_string())));
}

#[test]
fn workout_identifier_is_trimmed_and_not_empty() {
    assert_eq!(workout_identifier("  Bench Press "), Ok("Bench Press".to_string()));
    assert_eq!(
        workout_identifier("   "),
        Err(TrackerError::InvalidInput(
            "Exercise identifier cannot be empty for adding a workout.".to_string()
        ))
    );
    assert_eq!(
        workout_identifier(""),
        Err(TrackerError::InvalidInput(
            "Exercise identifier cannot be empty for adding a workout.".to_string()
        ))
    );
}

#[test]
fn bodyweight_is_needed_for_bodyweight_exercises() {
    assert!(needs_bodyweight(Some(ExerciseType::BodyWeight), None));
    assert!(needs_bodyweight(Some(ExerciseType::BodyWeight), Some(ExerciseTypeCli::Cardio)));
    assert!(!needs_bodyweight(Some(ExerciseType::Resistance), Some(ExerciseTypeCli::BodyWeight)));
    assert!(!needs_bodyweight(Some(ExerciseType::Cardio), None));
    assert!(needs_bodyweight(None, Some(ExerciseTypeCli::BodyWeight)));
    assert!(!needs_bodyweight(None, Some(ExerciseTypeCli::Resistance)));
    assert!(!needs_bodyweight(None, None));
}

#[test]
fn bodyweight_comes_from_the_log_then_a_prompt_then_zero() {
    assert_eq!(bodyweight_source(Some(70_000), true), BodyweightSource::Latest(70_000));
    assert_eq!(bodyweight_source(Some(70_000), false), BodyweightSource::Latest(70_000));
    assert_eq!(bodyweight_source(None, true), BodyweightSource::Prompt);
    assert_eq!(bodyweight_source(None, false), BodyweightSource::Zero);
}

#[test]
fn bodyweight_replies() {
    assert_eq!(read_bodyweight_reply(""), BodyweightReply::Skip);
    assert_eq!(read_bodyweight_reply("  \n"), BodyweightReply::Skip);
    assert_eq!(read_bodyweight_reply("n\n"), BodyweightReply::DisablePrompt);
    assert_eq!(read_bodyweight_reply(" N "), BodyweightReply::DisablePrompt);
    assert_eq!(read_bodyweight_reply(" 70.5\n"), BodyweightReply::Entered("70.5".to_string()));
    assert_eq!(read_bodyweight_reply("no"), BodyweightReply::Entered("no".to_string()));
}

#[test]
fn pb_replies() {
    assert_eq!(read_pb_reply("y\n"), Some(true));
    assert_eq!(read_pb_reply(" Y "), Some(true));
    assert_eq!(read_pb_reply("n"), Some(false));
    assert_eq!(read_pb_reply("N\n"), Some(false));
    assert_eq!(read_pb_reply("yes"), None);
    assert_eq!(read_pb_reply(""), None);
}

#[test]
fn a_pb_reply_is_stored_only_when_it_is_one() {
    let mut config = Config::new();
    assert_eq!(apply_pb_reply(&mut config, "maybe"), None);
    assert_eq!(config, Config::new());
    assert_eq!(apply_pb_reply(&mut config, "y"), Some(true));
    assert_eq!(config.check_notification_setting(), Some(true));
    assert_eq!(apply_pb_reply(&mut config, "N"), Some(false));
    assert_eq!(config.check_notification_setting(), Some(false));
    assert_eq!(config.units, Units::Metric);
}

#[test]
fn a_workout_for_today_happens_now() {
    assert_eq!(workout_time(day(5), day(5)), WorkoutTime::Now);
    assert_eq!(workout_time(day(4), day(5)), WorkoutTime::Noon);
    assert_eq!(workout_time(day(6), day(5)), WorkoutTime::Noon);
}

#[test]
fn the_day_of_a_listing() {
    assert_eq!(effective_list_date(true, false, None, day(5)), Some(day(5)));
    assert_eq!(effective_list_date(true, true, Some(day(1)), day(5)), Some(day(5)));
    assert_eq!(effective_list_date(false, true, Some(day(1)), day(5)), Some(day(4)));
    assert_eq!(effective_list_date(false, false, Some(day(1)), day(5)), Some(day(1)));
    assert_eq!(effective_list_date(false, false, None, day(5)), None);
}

#[test]
fn the_limit_of_a_listing() {
    assert_eq!(effective_list_limit(None, None, 20), Some(20));
    assert_eq!(effective_list_limit(Some(day(1)), None, 20), None);
    assert_eq!(effective_list_limit(None, Some(2), 20), None);
}

#[test]
fn volume_filters_from_arguments() {
    let f = volume_filters(Some("bp".to_string()), None, Some(ExerciseTypeCli::Cardio), None, 7, None, None);
    assert_eq!(f.exercise_name, Some("bp".to_string()));
    assert_eq!(f.exercise_type, Some(ExerciseType::Cardio));
    assert_eq!(f.muscle, None);
    assert_eq!((f.start_date, f.end_date, f.limit_days), (None, None, Some(7)));
    let f = volume_filters(None, Some(day(3)), None, Some("legs".to_string()), 7, Some(day(1)), Some(day(2)));
    assert_eq!((f.start_date, f.end_date, f.limit_days), (Some(day(3)), Some(day(3)), None));
    assert_eq!(f.muscle, Some("legs".to_string()));
    let f = volume_filters(None, None, None, None, 7, Some(day(1)), None);
    assert_eq!((f.start_date, f.end_date, f.limit_days), (Some(day(1)), None, None));
    let f = volume_filters(None, None, None, None, 7, None, Some(day(2)));
    assert_eq!((f.start_date, f.end_date, f.limit_days), (None, Some(day(2)), None));
}

#[test]
fn test_is_cell_empty() {
    assert!(is_cell_empty(""));
    assert!(is_cell_empty("-"));
    assert!(!is_cell_empty("--"));
    assert!(!is_cell_empty(" "));
    assert!(!is_cell_empty("0"));
    assert!(!is_cell_empty("- "));
}

#[test]
fn columns_without_content_are_hidden() {
    let headers = texts(&["ID", "Notes", "Sets", "Reps"]);
    let rows = vec![texts(&["1", "-", "3", ""]), texts(&["2", "", "-", "-"])];
    assert_eq!(used_columns(4, &rows), vec![true, false, true, false]);
    assert_eq!(
        layout_table(&headers, &rows),
        TableLayout {
            all_columns_empty: false,
            headers: texts(&["ID", "Sets"]),
            rows: vec![texts(&["1", "3"]), texts(&["2", "-"])],
        }
    );
}

#[test]
fn cells_beyond_the_headers_are_dropped() {
    let headers = texts(&["A", "B"]);
    let rows = vec![texts(&["1", "2", "3"]), texts(&["4"]), Vec::new()];
    assert_eq!(
        layout_table(&headers, &rows),
        TableLayout {
            all_columns_empty: false,
            headers: texts(&["A", "B"]),
            rows: vec![texts(&["1", "2"]), texts(&["4"])],
        }
    );
    assert_eq!(kept_cells(&texts(&["x", "y", "z"]), &vec![false, true]), texts(&["y"]));
}

#[test]
fn a_table_without_rows_shows_its_headers() {
    let headers = texts(&["A", "B"]);
    assert_eq!(
        layout_table(&headers, &Vec::new()),
        TableLayout { all_columns_empty: false, headers: texts(&["A", "B"]), rows: Vec::new() }
    );
}

#[test]
fn a_table_of_placeholders_says_so() {
    let headers = texts(&["A", "B"]);
    let rows = vec![texts(&["-", ""]), texts(&["", "-"])];
    assert_eq!(
        layout_table(&headers, &rows),
        TableLayout { all_columns_empty: true, headers: texts(&["A", "B"]), rows: Vec::new() }
    );
}

#[test]
fn test_should_display_pb() {
    assert_eq!(should_display_pb(&achieved(11, Some(10)), true), Some((11, 10)));
    assert_eq!(should_display_pb(&achieved(11, Some(10)), false), None);
    assert_eq!(should_display_pb(&achieved(11, None), true), Some((11, 0)));
    assert_eq!(should_display_pb(&achieved(0, None), true), Some((0, 0)));
    assert_eq!(should_display_pb(&achieved(10, Some(10)), true), None);
    assert_eq!(should_display_pb(&nothing(), true), None);
    let odd = PbMetricInfo { achieved: true, new_value: None, previous_value: Some(0) };
    assert_eq!(should_display_pb(&odd, true), None);
    let unset = PbMetricInfo { achieved: true, new_value: None, previous_value: Some(4) };
    assert_eq!(should_display_pb(&unset, true), Some((0, 4)));
}

#[test]
fn the_banner_is_at_least_25_wide() {
    assert_eq!(banner_layout(18, &Vec::new()), None);
    assert_eq!(
        banner_layout(18, &vec![10]),
        Some(BannerLayout { box_width: 25, line_width: 27, title_padding_left: 3, title_padding_right: 4 })
    );
    assert_eq!(
        banner_layout(18, &vec![10, 30, 23]),
        Some(BannerLayout { box_width: 32, line_width: 34, title_padding_left: 7, title_padding_right: 7 })
    );
    assert_eq!(
        banner_layout(18, &vec![23]),
        Some(BannerLayout { box_width: 25, line_width: 27, title_padding_left: 3, title_padding_right: 4 })
    );
    assert_eq!(
        banner_layout(18, &vec![24]),
        Some(BannerLayout { box_width: 26, line_width: 28, title_padding_left: 4, title_padding_right: 4 })
    );
    assert_eq!(
        banner_layout(0, &vec![usize::MAX]),
        Some(BannerLayout {
            box_width: usize::MAX,
            line_width: usize::MAX,
            title_padding_left: usize::MAX / 2,
            title_padding_right: usize::MAX - usize::MAX / 2,
        })
    );
}

#[test]
fn pb_notice_follows_the_switches() {
    let pb = PBInfo { weight: achieved(60_000, Some(50_000)), reps: nothing(), duration: nothing(), distance: nothing() };
    let mut settings = Config::new().pb_notifications;
    assert!(relevant_pb_achieved(&pb, &settings));
    assert_eq!(plan_pb_notice(&pb, &settings), PbNotice::AskFirst);
    settings.enabled = Some(true);
    assert_eq!(plan_pb_notice(&pb, &settings), PbNotice::Show);
    settings.enabled = Some(false);
    assert_eq!(plan_pb_notice(&pb, &settings), PbNotice::Nothing);
    settings.enabled = None;
    settings.notify_weight = false;
    assert!(!relevant_pb_achieved(&pb, &settings));
    assert_eq!(plan_pb_notice(&pb, &settings), PbNotice::Nothing);
    let none = PBInfo { weight: nothing(), reps: nothing(), duration: nothing(), distance: nothing() };
    let all_on = PbNotificationConfig {
        enabled: Some(true),
        notify_weight: true,
        notify_reps: true,
        notify_duration: true,
        notify_distance: true,
    };
    assert_eq!(plan_pb_notice(&none, &all_on), PbNotice::Nothing);
    let distance = PBInfo { weight: nothing(), reps: nothing(), duration: nothing(), distance: achieved(5_000, None) };
    assert_eq!(plan_pb_notice(&distance, &all_on), PbNotice::Show);
}

#[test]
fn config_setters() {
    let mut config = Config::new();
    assert_eq!(config.check_notification_setting(), None);
    assert_eq!(config.streak_interval_days, 1);
    assert_eq!(config.set_streak_interval(3), Ok(()));
    assert_eq!(config.streak_interval_days, 3);
    assert_eq!(
        config.set_streak_interval(0),
        Err(TrackerError::InvalidInput("Streak interval must be at least 1 day.".to_string()))
    );
    assert_eq!(config.streak_interval_days, 3);
    config.set_units(Units::Imperial);
    assert_eq!(config.units, Units::Imperial);
    config.disable_bodyweight_prompt();
    assert!(!config.prompt_for_bodyweight);
    assert_eq!(config.set_target_bodyweight(Some(75_000)), Ok(()));
    assert_eq!(config.target_bodyweight, Some(75_000));
    assert_eq!(
        config.set_target_bodyweight(Some(0)),
        Err(TrackerError::InvalidInput("Weight must be a positive number.".to_string()))
    );
    assert_eq!(config.target_bodyweight, Some(75_000));
    assert_eq!(config.set_target_bodyweight(None), Ok(()));
    assert_eq!(config.target_bodyweight, None);
    config.set_pb_notify_weight(false);
    config.set_pb_notify_reps(false);
    config.set_pb_notify_duration(false);
    config.set_pb_notify_distance(false);
    config.set_notification_setting(true);
    assert_eq!(
        config.pb_notifications,
        PbNotificationConfig {
            enabled: Some(true),
            notify_weight: false,
            notify_reps: false,
            notify_duration: false,
            notify_distance: false,
        }
    );
}

#[test]
fn colours_are_read_by_name() {
    assert_eq!(parse_color("green"), Some(ThemeColor::Green));
    assert_eq!(parse_color("Green"), Some(ThemeColor::Green));
    assert_eq!(parse_color("DARKCYAN"), Some(ThemeColor::DarkCyan));
    assert_eq!(parse_color("DarkGrey"), Some(ThemeColor::DarkGrey));
    assert_eq!(parse_color("grey"), Some(ThemeColor::Grey));
    assert_eq!(parse_color("black"), Some(ThemeColor::Black));
    assert_eq!(parse_color("white"), Some(ThemeColor::White));
    assert_eq!(parse_color("dark cyan"), None);
    assert_eq!(parse_color(""), None);
    assert_eq!(parse_color("purple"), None);
    let all = [
        ThemeColor::Black,
        ThemeColor::Red,
        ThemeColor::Green,
        ThemeColor::Yellow,
        ThemeColor::Blue,
        ThemeColor::Magenta,
        ThemeColor::Cyan,
        ThemeColor::White,
        ThemeColor::Grey,
        ThemeColor::DarkGrey,
        ThemeColor::DarkRed,
        ThemeColor::DarkGreen,
        ThemeColor::DarkYellow,
        ThemeColor::DarkBlue,
        ThemeColor::DarkMagenta,
        ThemeColor::DarkCyan,
    ];
    for color in all {
        assert_eq!(parse_color(color_name(color)), Some(color));
    }
    assert_eq!(color_name(ThemeColor::DarkYellow), "darkyellow");
}

#[test]
fn the_header_colour_of_the_settings_wins() {
    let mut config = Config::new();
    assert_eq!(config.header_color, None);
    assert_eq!(config.header_color_or(ThemeColor::Green), ThemeColor::Green);
    config.set_header_color(Some(ThemeColor::Red));
    assert_eq!(config.header_color_or(ThemeColor::Green), ThemeColor::Red);
    assert_eq!(config.units, Config::new().units);
    config.set_header_color(None);
    assert_eq!(config, Config::new());
}
