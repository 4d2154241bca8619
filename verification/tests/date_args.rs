use chrono::{Datelike, Duration, NaiveDate, Utc};
use task_athlete::date::{parse_date_on, parse_date_shorthand, parse_written_date, Date};

fn naive(date: Date) -> NaiveDate {
    NaiveDate::from_num_days_from_ce_opt(date.days()).unwrap()
}

#[test]
fn test_date_parsing_today() {
    let result = parse_date_shorthand("today").unwrap();
    let today = Utc::now().date_naive();
    assert_eq!(naive(result), today);
}

#[test]
fn test_date_parsing_yesterday() {
    let result = parse_date_shorthand("yesterday").unwrap();
    let yesterday = Utc::now().date_naive() - Duration::days(1);
    assert_eq!(naive(result), yesterday);
}

#[test]
fn test_date_parsing_yyyy_mm_dd() {
    let result = parse_date_shorthand("2023-10-27").unwrap();
    assert_eq!(naive(result), NaiveDate::from_ymd_opt(2023, 10, 27).unwrap());
}

#[test]
fn test_date_parsing_dd_mm_yyyy() {
    let result = parse_date_shorthand("27.10.2023").unwrap();
    assert_eq!(naive(result), NaiveDate::from_ymd_opt(2023, 10, 27).unwrap());
}

#[test]
fn test_date_parsing_yyyy_slash_mm_dd() {
    let result = parse_date_shorthand("2023/10/27").unwrap();
    assert_eq!(naive(result), NaiveDate::from_ymd_opt(2023, 10, 27).unwrap());
}

#[test]
fn test_date_parsing_case_insensitive() {
    let result_today = parse_date_shorthand("ToDaY").unwrap();
    let today = Utc::now().date_naive();
    assert_eq!(naive(result_today), today);

    let result_yesterday = parse_date_shorthand("yEsTeRdAy").unwrap();
    let yesterday = Utc::now().date_naive() - Duration::days(1);
    assert_eq!(naive(result_yesterday), yesterday);
}

#[test]
fn test_date_parsing_invalid_format() {
    let result = parse_date_shorthand("27-10-2023");
    assert!(result.is_err());
    assert!(result.unwrap_err().contains("Invalid date format"));

    let result = parse_date_shorthand("October 27, 2023");
    assert!(result.is_err());
    assert!(result.unwrap_err().contains("Invalid date format"));

    let result = parse_date_shorthand("invalid-date");
    assert!(result.is_err());
    assert!(result.unwrap_err().contains("Invalid date format"));
}

#[test]
fn test_date_parsing_invalid_date() {
    let result = parse_date_shorthand("2023-02-30");
    assert!(result.is_err());
    assert!(result.unwrap_err().contains("Invalid date format"));

    let result = parse_date_shorthand("32.10.2023");
    assert!(result.is_err());
    assert!(result.unwrap_err().contains("Invalid date format"));

    let result = parse_date_shorthand("2023/13/01");
    assert!(result.is_err());
    assert!(result.unwrap_err().contains("Invalid date format"));
}

#[test]
fn date_from_ymd_counts_days_from_year_one() {
    assert_eq!(Date::from_ymd(1, 1, 1), Some(Date::from_days(1)));
    assert_eq!(Date::from_ymd(1970, 1, 1), Some(Date::from_days(719_163)));
    assert_eq!(Date::from_ymd(2023, 2, 30), None);
    assert_eq!(Date::from_ymd(2023, 13, 1), None);
}

#[test]
fn date_days_since_is_signed() {
    let a = Date::from_ymd(2024, 1, 1).unwrap();
    let b = Date::from_ymd(2024, 3, 1).unwrap();
    assert_eq!(b.days_since(a), 60);
    assert_eq!(a.days_since(b), -60);
    assert_eq!(a.days_since(a), 0);
}

#[test]
fn parse_date_on_a_fixed_day() {
    let today = Date::from_ymd(2024, 3, 1).unwrap();
    assert_eq!(parse_date_on("today", today), Ok(today));
    assert_eq!(parse_date_on("TODAY", today), Ok(today));
    assert_eq!(parse_date_on("yesterday", today), Ok(Date::from_ymd(2024, 2, 29).unwrap()));
    assert_eq!(parse_date_on("2023-10-27", today), Ok(Date::from_ymd(2023, 10, 27).unwrap()));
    assert_eq!(
        parse_date_on("nonsense", today),
        Err("Invalid date format: 'nonsense'. Use 'today', 'yesterday', YYYY-MM-DD, DD.MM.YYYY, or YYYY/MM/DD.".to_string())
    );
}

#[test]
fn parse_written_date_tries_each_pattern() {
    let expected = Some(Date::from_ymd(2023, 10, 27).unwrap());
    assert_eq!(parse_written_date("2023-10-27"), expected);
    assert_eq!(parse_written_date("27.10.2023"), expected);
    assert_eq!(parse_written_date("2023/10/27"), expected);
    assert_eq!(parse_written_date("27-10-2023"), None);
    assert_eq!(parse_written_date("today"), None);
}
