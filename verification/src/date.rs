//! Calendar days and the date arguments of the command line.

use crate::text::{lowercase, std_to_lowercase};
use vstd::prelude::*;
use vstd::string::StringExecFns;

verus! {

/// A calendar day, held as its day number in the proleptic Gregorian
/// calendar: 1 January of the year 1 is day 1.
#[derive(Clone, Copy, Debug, PartialEq, Eq, Structural, Hash)]
pub struct Date {
    pub days: i32,
}

/// The day number of a year, month and day of the month, where that day
/// exists and lies in the range chrono can hold.
pub uninterp spec fn civil_day_number(year: i32, month: u32, day: u32) -> Option<i32>;

/// The day number chrono reads from `text` under the strftime pattern
/// `pattern`, where it reads one.
pub uninterp spec fn parsed_day_number(text: Seq<char>, pattern: Seq<char>) -> Option<i32>;

/// Day numbers strictly between these bounds cover every date chrono can hold.
pub open spec fn day_number_in_range(days: i32) -> bool {
    -100_000_000 < days < 100_000_000
}

/// Calls chrono's `NaiveDate::from_ymd_opt` and, where it yields a date,
/// `Datelike::num_days_from_ce` on it. Trusted: the outcome is the one named
/// by `civil_day_number`.
#[verifier::external_body]
fn chrono_day_number(year: i32, month: u32, day: u32) -> (r: Option<i32>)
    ensures
        r == civil_day_number(year, month, day),
{
    match chrono::NaiveDate::from_ymd_opt(year, month, day) {
        Some(date) => Some(chrono::Datelike::num_days_from_ce(&date)),
        None => None,
    }
}

/// Calls chrono's `NaiveDate::parse_from_str` and, where it yields a date,
/// `Datelike::num_days_from_ce` on it; a parse error becomes `None`. Trusted:
/// the outcome is the one named by `parsed_day_number`.
#[verifier::external_body]
fn chrono_parse_day_number(text: &str, pattern: &str) -> (r: Option<i32>)
    ensures
        r == parsed_day_number(text@, pattern@),
{
    match chrono::NaiveDate::parse_from_str(text, pattern) {
        Ok(date) => Some(chrono::Datelike::num_days_from_ce(&date)),
        Err(_) => None,
    }
}

/// Calls chrono's `Utc::now`, takes the calendar day of that instant with
/// `DateTime::date_naive` and counts its days. Trusted: only that the day
/// number is one chrono can hold; which day it is depends on the clock.
#[verifier::external_body]
fn chrono_utc_today() -> (r: i32)
    ensures
        day_number_in_range(r),
{
    chrono::Datelike::num_days_from_ce(&chrono::Utc::now().date_naive())
}

/// The first day number that one of the three accepted patterns reads from
/// `text`: year-month-day with hyphens, day.month.year with dots, then
/// year/month/day with slashes.
pub open spec fn spec_parse_written_date(text: Seq<char>) -> Option<Date> {
    if let Some(days) = parsed_day_number(text, "%Y-%m-%d"@) {
        Some(Date { days })
    } else if let Some(days) = parsed_day_number(text, "%d.%m.%Y"@) {
        Some(Date { days })
    } else if let Some(days) = parsed_day_number(text, "%Y/%m/%d"@) {
        Some(Date { days })
    } else {
        None
    }
}

/// The text of the error for a date argument that cannot be read.
pub open spec fn spec_invalid_date_message(text: Seq<char>) -> Seq<char> {
    "Invalid date format: '"@ + text
        + "'. Use 'today', 'yesterday', YYYY-MM-DD, DD.MM.YYYY, or YYYY/MM/DD."@
}

/// Whether `text` is the word "today" in any mix of cases.
pub open spec fn is_today_word(text: Seq<char>) -> bool {
    lowercase(text) == "today"@
}

/// Whether `text` is the word "yesterday" in any mix of cases.
pub open spec fn is_yesterday_word(text: Seq<char>) -> bool {
    lowercase(text) == "yesterday"@
}

/// What a date argument means when the current day is `today`.
pub open spec fn spec_parse_date(text: Seq<char>, today: Date) -> Result<Date, Seq<char>> {
    if is_today_word(text) {
        Ok(today)
    } else if is_yesterday_word(text) {
        Ok(Date { days: (today.days - 1) as i32 })
    } else {
        match spec_parse_written_date(text) {
            Some(date) => Ok(date),
            None => Err(spec_invalid_date_message(text)),
        }
    }
}

/// The outcome of a parse with the error message taken by its characters.
pub open spec fn parse_outcome(r: Result<Date, String>) -> Result<Date, Seq<char>> {
    match r {
        Ok(date) => Ok(date),
        Err(message) => Err(message@),
    }
}

impl Date {
    /// The day with the given day number.
    pub fn from_days(days: i32) -> (r: Date)
        ensures
            r.days == days,
    {
        Date { days }
    }

    /// The day number of this day.
    pub fn days(&self) -> (r: i32)
        ensures
            r == self.days,
    {
        self.days
    }

    /// The day with the given year, month and day of the month, or `None`
    /// where the calendar has no such day.
    pub fn from_ymd(year: i32, month: u32, day: u32) -> (r: Option<Date>)
        ensures
            r == match civil_day_number(year, month, day) {
                Some(days) => Some(Date { days }),
                None => None,
            },
    {
        match chrono_day_number(year, month, day) {
            Some(days) => Some(Date { days }),
            None => None,
        }
    }

    /// The number of days from `earlier` to `self`; negative where `self`
    /// comes first.
    pub fn days_since(&self, earlier: Date) -> (r: i64)
        ensures
            r == self.days - earlier.days,
    {
        self.days as i64 - earlier.days as i64
    }
}

/// Reads a date written in one of the three accepted patterns.
pub fn parse_written_date(text: &str) -> (r: Option<Date>)
    ensures
        r == spec_parse_written_date(text@),
{
    if let Some(days) = chrono_parse_day_number(text, "%Y-%m-%d") {
        Some(Date { days })
    } else if let Some(days) = chrono_parse_day_number(text, "%d.%m.%Y") {
        Some(Date { days })
    } else if let Some(days) = chrono_parse_day_number(text, "%Y/%m/%d") {
        Some(Date { days })
    } else {
        None
    }
}

/// Reads a date argument on a given current day: the words "today" and
/// "yesterday" in any mix of cases, or a written date.
pub fn parse_date_on(text: &str, today: Date) -> (r: Result<Date, String>)
    requires
        today.days > i32::MIN,
    ensures
        parse_outcome(r) == spec_parse_date(text@, today),
{
    let lower = std_to_lowercase(text);
    if lower == String::from_str("today") {
        Ok(today)
    } else if lower == String::from_str("yesterday") {
        Ok(Date { days: today.days - 1 })
    } else {
        match parse_written_date(text) {
            Some(date) => Ok(date),
            None => {
                let message = String::from_str("Invalid date format: '").concat(text).concat(
                    "'. Use 'today', 'yesterday', YYYY-MM-DD, DD.MM.YYYY, or YYYY/MM/DD.",
                );
                Err(message)
            },
        }
    }
}

/// The current day by the clock, in UTC.
pub fn today_utc() -> (r: Date)
    ensures
        day_number_in_range(r.days),
{
    Date { days: chrono_utc_today() }
}

/// Reads a date argument against the clock. A written date means the same
/// on every day; "today" and "yesterday" always succeed.
pub fn parse_date_shorthand(s: &str) -> (r: Result<Date, String>)
    ensures
        is_today_word(s@) || is_yesterday_word(s@) ==> r is Ok,
        !is_today_word(s@) && !is_yesterday_word(s@) ==> parse_outcome(r) == (
        match spec_parse_written_date(s@) {
            Some(date) => Ok::<Date, Seq<char>>(date),
            None => Err(spec_invalid_date_message(s@)),
        }),
        exists|today: Date| #[trigger] spec_parse_date(s@, today) == parse_outcome(r),
{
    let today = today_utc();
    parse_date_on(s, today)
}

} // verus!
