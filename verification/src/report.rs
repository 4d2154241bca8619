//! The texts that reports are made of: numbers to two decimals, dates,
//! labels, and the cells and lines of each report.

use crate::config::PbNotificationConfig;
use crate::date::Date;
use crate::model::{BodyweightEntry, ExerciseDefinition, ExerciseType, Units, Workout};
use crate::pb::{PBInfo, PersonalBests};
use crate::quantity::{clamp_i64, saturate};
use crate::stats::{ExerciseStats, WeeklyAverage};
use crate::table::{should_display_pb, spec_display_pb};
use crate::text::{decimal, rows_view, std_i128_to_string, texts_view};
use crate::volume::VolumeRow;
use vstd::prelude::*;
use vstd::string::StringExecFns;

verus! {

/// The text chrono writes for the day with this day number under the
/// pattern year-month-day, where it can hold that day.
pub uninterp spec fn iso_date_text(days: i32) -> Option<Seq<char>>;

/// Calls chrono's `NaiveDate::from_num_days_from_ce_opt` and, where it
/// yields a date, writes it with `NaiveDate::format` under `%Y-%m-%d`.
/// Trusted: the outcome is the one named by `iso_date_text`.
#[verifier::external_body]
fn chrono_iso_date(days: i32) -> (r: Option<String>)
    ensures
        match r {
            Some(text) => iso_date_text(days) == Some(text@),
            None => iso_date_text(days) is None,
        },
{
    match chrono::NaiveDate::from_num_days_from_ce_opt(days) {
        Some(date) => Some(date.format("%Y-%m-%d").to_string()),
        None => None,
    }
}

/// `n` divided by a positive `d`, rounded to the nearest integer, a half
/// going away from zero.
pub open spec fn spec_round_div(n: int, d: int) -> int {
    if n >= 0 {
        (2 * n + d) / (2 * d)
    } else {
        -((2 * (-n) + d) / (2 * d))
    }
}

/// A weight in thousandths as hundredths, rounded.
pub open spec fn spec_weight_hundredths(milli: i64) -> i64 {
    spec_round_div(milli as int, 10) as i64
}

/// A distance in metres as hundredths of the unit shown: of a kilometre,
/// or of a mile at 0.621371 miles to the kilometre. Rounded, and brought
/// into the range of `i64`.
pub open spec fn spec_distance_hundredths(metres: i64, units: Units) -> i64 {
    match units {
        Units::Metric => spec_round_div(metres as int, 10) as i64,
        Units::Imperial => clamp_i64(spec_round_div(metres * 621_371, 10_000_000)),
    }
}

/// A weekly average as hundredths of a workout per week: seven times the
/// workouts over the days of the span. Rounded, and brought into the range
/// of `i64`. The span is positive.
pub open spec fn spec_average_hundredths(average: WeeklyAverage) -> i64 {
    clamp_i64(spec_round_div(700 * average.workouts, average.span_days as int))
}

/// A number of hundredths written with two decimals.
pub open spec fn spec_hundredths_text(h: i64) -> Seq<char> {
    let magnitude = if h < 0 {
        -(h as int)
    } else {
        h as int
    };
    let sign = if h < 0 {
        "-"@
    } else {
        ""@
    };
    let cents = magnitude % 100;
    let pad = if cents < 10 {
        "0"@
    } else {
        ""@
    };
    sign + decimal(magnitude / 100) + "."@ + pad + decimal(cents)
}

/// The abbreviation of the weight unit.
pub open spec fn spec_weight_abbr(units: Units) -> Seq<char> {
    match units {
        Units::Metric => "kg"@,
        Units::Imperial => "lbs"@,
    }
}

/// The abbreviation of the distance unit.
pub open spec fn spec_distance_abbr(units: Units) -> Seq<char> {
    match units {
        Units::Metric => "km"@,
        Units::Imperial => "mi"@,
    }
}

/// The name of an exercise type.
pub open spec fn spec_exercise_type_text(kind: ExerciseType) -> Seq<char> {
    match kind {
        ExerciseType::Resistance => "Resistance"@,
        ExerciseType::Cardio => "Cardio"@,
        ExerciseType::BodyWeight => "BodyWeight"@,
    }
}

/// The day written year-month-day, or "N/A" where chrono cannot hold it.
pub open spec fn spec_date_text(date: Date) -> Seq<char> {
    match iso_date_text(date.days) {
        Some(text) => text,
        None => "N/A"@,
    }
}

/// The words that say which streak tolerance is meant.
pub open spec fn spec_streak_label(interval: u32) -> Seq<char> {
    if interval == 1 {
        "(Daily)"@
    } else {
        "("@ + decimal(interval as int) + "-day Interval)"@
    }
}

/// `n` divided by `d`, rounded to the nearest integer, a half going away
/// from zero.
pub fn round_div(n: i128, d: i128) -> (r: i128)
    requires
        d > 0,
        -0x2000_0000_0000_0000_0000_0000_0000_0000 < n < 0x2000_0000_0000_0000_0000_0000_0000_0000,
        d < 0x2000_0000_0000_0000_0000_0000_0000_0000,
    ensures
        r == spec_round_div(n as int, d as int),
        -0x2000_0000_0000_0000_0000_0000_0000_0000 < r < 0x2000_0000_0000_0000_0000_0000_0000_0000,
{
    if n >= 0 {
        let q = (2 * n + d) / (2 * d);
        assert(0 <= q <= 2 * n + d) by (nonlinear_arith)
            requires
                q == (2 * n + d) / (2 * d),
                n >= 0,
                d > 0,
        ;
        assert(q <= n) by (nonlinear_arith)
            requires
                q == (2 * n + d) / (2 * d),
                n >= 0,
                d > 0,
        ;
        q
    } else {
        let m = -n;
        let q = (2 * m + d) / (2 * d);
        assert(0 <= q <= m) by (nonlinear_arith)
            requires
                q == (2 * m + d) / (2 * d),
                m >= 0,
                d > 0,
        ;
        -q
    }
}

/// A weight in thousandths as hundredths, rounded.
pub fn weight_hundredths(milli: i64) -> (r: i64)
    ensures
        r == spec_weight_hundredths(milli),
{
    let h = round_div(milli as i128, 10);
    assert(-0x8000_0000_0000_0000 <= h <= 0x7fff_ffff_ffff_ffff) by (nonlinear_arith)
        requires
            h == spec_round_div(milli as int, 10),
            -0x8000_0000_0000_0000 <= milli <= 0x7fff_ffff_ffff_ffff,
    ;
    h as i64
}

/// A distance in metres as hundredths of the unit shown.
pub fn distance_hundredths(metres: i64, units: Units) -> (r: i64)
    ensures
        r == spec_distance_hundredths(metres, units),
{
    match units {
        Units::Metric => weight_hundredths(metres),
        Units::Imperial => {
            assert(-0x8000_0000_0000_0000 * 621_371 <= metres * 621_371 <= 0x8000_0000_0000_0000
                * 621_371) by (nonlinear_arith)
                requires
                    -0x8000_0000_0000_0000 <= metres <= 0x7fff_ffff_ffff_ffff,
            ;
            saturate(round_div(metres as i128 * 621_371, 10_000_000))
        },
    }
}

/// A weekly average as hundredths of a workout per week, or `None` where
/// the span is not positive.
pub fn average_hundredths(average: WeeklyAverage) -> (r: Option<i64>)
    ensures
        r == if average.span_days > 0 {
            Some(spec_average_hundredths(average))
        } else {
            None
        },
{
    if average.span_days > 0 {
        assert(0 <= 700 * average.workouts <= 700 * 0xffff_ffff_ffff_ffff) by (nonlinear_arith)
            requires
                0 <= average.workouts <= 0xffff_ffff_ffff_ffff,
        ;
        Some(saturate(round_div(700 * (average.workouts as i128), average.span_days as i128)))
    } else {
        None
    }
}

/// Writes an integer in decimal.
pub fn integer_text(value: i64) -> (r: String)
    ensures
        r@ == decimal(value as int),
{
    std_i128_to_string(value as i128)
}

/// Writes a count in decimal.
pub fn count_text(value: usize) -> (r: String)
    ensures
        r@ == decimal(value as int),
{
    std_i128_to_string(value as i128)
}

/// Writes a number of hundredths with two decimals.
pub fn hundredths_text(h: i64) -> (r: String)
    ensures
        r@ == spec_hundredths_text(h),
{
    let magnitude: i128 = if h < 0 {
        -(h as i128)
    } else {
        h as i128
    };
    let sign = if h < 0 {
        "-"
    } else {
        ""
    };
    let cents = magnitude % 100;
    let pad = if cents < 10 {
        "0"
    } else {
        ""
    };
    String::from_str(sign).concat(std_i128_to_string(magnitude / 100).as_str()).concat(".").concat(
        pad,
    ).concat(std_i128_to_string(cents).as_str())
}

/// Writes a weight in thousandths with two decimals.
pub fn weight_text(milli: i64) -> (r: String)
    ensures
        r@ == spec_hundredths_text(spec_weight_hundredths(milli)),
{
    hundredths_text(weight_hundredths(milli))
}

/// Writes a distance in metres in the unit shown, with two decimals.
pub fn distance_text(metres: i64, units: Units) -> (r: String)
    ensures
        r@ == spec_hundredths_text(spec_distance_hundredths(metres, units)),
{
    hundredths_text(distance_hundredths(metres, units))
}

/// The abbreviation of the weight unit.
pub fn weight_abbr(units: Units) -> (r: &'static str)
    ensures
        r@ == spec_weight_abbr(units),
{
    match units {
        Units::Metric => "kg",
        Units::Imperial => "lbs",
    }
}

/// The abbreviation of the distance unit.
pub fn distance_abbr(units: Units) -> (r: &'static str)
    ensures
        r@ == spec_distance_abbr(units),
{
    match units {
        Units::Metric => "km",
        Units::Imperial => "mi",
    }
}

/// The name of an exercise type.
pub fn exercise_type_text(kind: ExerciseType) -> (r: &'static str)
    ensures
        r@ == spec_exercise_type_text(kind),
{
    match kind {
        ExerciseType::Resistance => "Resistance",
        ExerciseType::Cardio => "Cardio",
        ExerciseType::BodyWeight => "BodyWeight",
    }
}

/// Writes a day year-month-day, or "N/A" where chrono cannot hold it.
pub fn date_text(date: Date) -> (r: String)
    ensures
        r@ == spec_date_text(date),
{
    match chrono_iso_date(date.days) {
        Some(text) => text,
        None => String::from_str("N/A"),
    }
}

/// The words that say which streak tolerance is meant.
pub fn streak_interval_label(interval: u32) -> (r: String)
    ensures
        r@ == spec_streak_label(interval),
{
    if interval == 1 {
        String::from_str("(Daily)")
    } else {
        String::from_str("(").concat(std_i128_to_string(interval as i128).as_str()).concat(
            "-day Interval)",
        )
    }
}

/// A row of two cells: what is shown and its value.
fn pair(label: String, value: String) -> (r: Vec<String>)
    ensures
        texts_view(r@) == seq![label@, value@],
{
    let mut row: Vec<String> = Vec::new();
    row.push(label);
    row.push(value);
    assert(texts_view(row@) =~= seq![label@, value@]);
    row
}

/// Appends a row to a list of rows.
fn push_row(rows: &mut Vec<Vec<String>>, row: Vec<String>)
    ensures
        rows_view(final(rows)@) == rows_view(old(rows)@).push(texts_view(row@)),
{
    rows.push(row);
    assert(rows_view(rows@) =~= rows_view(old(rows)@).push(texts_view(row@)));
}

/// An optional day written year-month-day, "N/A" where it is absent.
pub open spec fn spec_optional_date_text(date: Option<Date>) -> Seq<char> {
    match date {
        Some(day) => spec_date_text(day),
        None => "N/A"@,
    }
}

/// The weekly average with two decimals, "N/A" where there is none.
pub open spec fn spec_average_text(average: Option<WeeklyAverage>) -> Seq<char> {
    match average {
        Some(a) => if a.span_days > 0 {
            spec_hundredths_text(spec_average_hundredths(a))
        } else {
            "N/A"@
        },
        None => "N/A"@,
    }
}

/// The rows of the statistics table, label and value: total workouts,
/// first and last workout, average per week, longest gap, and the current
/// and the longest streak under the tolerance they were counted with.
pub open spec fn spec_stats_rows(stats: ExerciseStats) -> Seq<Seq<Seq<char>>> {
    seq![
        seq!["Total Workouts"@, decimal(stats.total_workouts as int)],
        seq!["First Workout"@, spec_optional_date_text(stats.first_workout_date)],
        seq!["Last Workout"@, spec_optional_date_text(stats.last_workout_date)],
        seq!["Avg Workouts / Week"@, spec_average_text(stats.avg_workouts_per_week)],
        seq![
            "Longest Gap"@,
            match stats.longest_gap_days {
                Some(gap) => decimal(gap as int) + " days"@,
                None => "N/A"@,
            },
        ],
        seq![
            "Current Streak "@ + spec_streak_label(stats.streak_interval_days),
            decimal(stats.current_streak as int),
        ],
        seq![
            "Longest Streak "@ + spec_streak_label(stats.streak_interval_days),
            decimal(stats.longest_streak as int),
        ],
    ]
}

/// The rows of the personal bests table for the first `n` of the four
/// metrics, in the order weight, reps, duration, distance: one row for each
/// best there is.
pub open spec fn spec_pb_rows(bests: PersonalBests, units: Units, n: int) -> Seq<Seq<Seq<char>>>
    decreases n,
{
    if n <= 0 {
        Seq::empty()
    } else {
        let earlier = spec_pb_rows(bests, units, n - 1);
        if n == 1 {
            match bests.max_weight {
                Some(v) => earlier.push(
                    seq![
                        "Max Weight"@,
                        spec_hundredths_text(spec_weight_hundredths(v)) + " "@ + spec_weight_abbr(
                            units,
                        ),
                    ],
                ),
                None => earlier,
            }
        } else if n == 2 {
            match bests.max_reps {
                Some(v) => earlier.push(seq!["Max Reps"@, decimal(v as int)]),
                None => earlier,
            }
        } else if n == 3 {
            match bests.max_duration_minutes {
                Some(v) => earlier.push(seq!["Max Duration"@, decimal(v as int) + " min"@]),
                None => earlier,
            }
        } else if n == 4 {
            match bests.max_distance {
                Some(v) => earlier.push(
                    seq![
                        "Max Distance"@,
                        spec_hundredths_text(spec_distance_hundredths(v, units)) + " "@
                            + spec_distance_abbr(units),
                    ],
                ),
                None => earlier,
            }
        } else {
            earlier
        }
    }
}

/// An optional day written year-month-day, "N/A" where it is absent.
pub fn optional_date_text(date: Option<Date>) -> (r: String)
    ensures
        r@ == spec_optional_date_text(date),
{
    match date {
        Some(day) => date_text(day),
        None => String::from_str("N/A"),
    }
}

/// The weekly average with two decimals, "N/A" where there is none.
pub fn average_text(average: Option<WeeklyAverage>) -> (r: String)
    ensures
        r@ == spec_average_text(average),
{
    let hundredths = match average {
        Some(a) => average_hundredths(a),
        None => None,
    };
    match hundredths {
        Some(h) => hundredths_text(h),
        None => String::from_str("N/A"),
    }
}

/// The rows of the statistics table.
pub fn stats_rows(stats: &ExerciseStats) -> (r: Vec<Vec<String>>)
    ensures
        rows_view(r@) == spec_stats_rows(*stats),
{
    let mut rows: Vec<Vec<String>> = Vec::new();
    assert(rows_view(rows@) =~= Seq::empty());
    push_row(
        &mut rows,
        pair(String::from_str("Total Workouts"), count_text(stats.total_workouts)),
    );
    push_row(
        &mut rows,
        pair(String::from_str("First Workout"), optional_date_text(stats.first_workout_date)),
    );
    push_row(
        &mut rows,
        pair(String::from_str("Last Workout"), optional_date_text(stats.last_workout_date)),
    );
    push_row(
        &mut rows,
        pair(String::from_str("Avg Workouts / Week"), average_text(stats.avg_workouts_per_week)),
    );
    let gap = match stats.longest_gap_days {
        Some(gap) => integer_text(gap).concat(" days"),
        None => String::from_str("N/A"),
    };
    push_row(&mut rows, pair(String::from_str("Longest Gap"), gap));
    let label = streak_interval_label(stats.streak_interval_days);
    push_row(
        &mut rows,
        pair(
            String::from_str("Current Streak ").concat(label.as_str()),
            count_text(stats.current_streak),
        ),
    );
    push_row(
        &mut rows,
        pair(
            String::from_str("Longest Streak ").concat(label.as_str()),
            count_text(stats.longest_streak),
        ),
    );
    proof {
        let model = spec_stats_rows(*stats);
        let built = rows_view(rows@);
        assert(built.len() == 7);
        assert(built[0] == model[0]);
        assert(built[1] == model[1]);
        assert(built[2] == model[2]);
        assert(built[3] == model[3]);
        assert(built[4] == model[4]);
        assert(built[5] == model[5]);
        assert(built[6] == model[6]);
        assert(built =~= model);
    }
    rows
}

/// The rows of the personal bests table: one row for each best there is.
/// No row at all means that no best was recorded.
pub fn pb_rows(bests: &PersonalBests, units: Units) -> (r: Vec<Vec<String>>)
    ensures
        rows_view(r@) == spec_pb_rows(*bests, units, 4),
{
    let mut rows: Vec<Vec<String>> = Vec::new();
    assert(rows_view(rows@) =~= spec_pb_rows(*bests, units, 0));
    if let Some(v) = bests.max_weight {
        push_row(
            &mut rows,
            pair(
                String::from_str("Max Weight"),
                weight_text(v).concat(" ").concat(weight_abbr(units)),
            ),
        );
    }
    assert(rows_view(rows@) == spec_pb_rows(*bests, units, 1));
    if let Some(v) = bests.max_reps {
        push_row(&mut rows, pair(String::from_str("Max Reps"), integer_text(v)));
    }
    assert(rows_view(rows@) == spec_pb_rows(*bests, units, 2));
    if let Some(v) = bests.max_duration_minutes {
        push_row(&mut rows, pair(String::from_str("Max Duration"), integer_text(v).concat(" min")));
    }
    assert(rows_view(rows@) == spec_pb_rows(*bests, units, 3));
    if let Some(v) = bests.max_distance {
        push_row(
            &mut rows,
            pair(
                String::from_str("Max Distance"),
                distance_text(v, units).concat(" ").concat(distance_abbr(units)),
            ),
        );
    }
    rows
}

/// Appends a cell to a row.
fn push_cell(cells: &mut Vec<String>, cell: String)
    ensures
        texts_view(final(cells)@) == texts_view(old(cells)@).push(cell@),
{
    cells.push(cell);
    assert(texts_view(cells@) =~= texts_view(old(cells)@).push(cell@));
}

/// The text that stands for a missing value: a hyphen in a table, nothing
/// in CSV.
pub open spec fn spec_placeholder(csv: bool) -> Seq<char> {
    if csv {
        ""@
    } else {
        "-"@
    }
}

/// An optional integer in decimal, or the placeholder.
pub open spec fn spec_integer_or(value: Option<i64>, csv: bool) -> Seq<char> {
    match value {
        Some(v) => decimal(v as int),
        None => spec_placeholder(csv),
    }
}

/// An optional weight with two decimals, or the placeholder.
pub open spec fn spec_weight_or(value: Option<i64>, csv: bool) -> Seq<char> {
    match value {
        Some(v) => spec_hundredths_text(spec_weight_hundredths(v)),
        None => spec_placeholder(csv),
    }
}

/// The first `n` of `tags`, separated by commas.
pub open spec fn spec_joined(tags: Seq<String>, n: int) -> Seq<char>
    decreases n,
{
    if n <= 0 {
        Seq::empty()
    } else if n == 1 {
        tags[0]@
    } else {
        spec_joined(tags, n - 1) + ","@ + tags[n - 1]@
    }
}

/// The previous best of a weight or distance as the announcement shows it.
pub open spec fn spec_previous_text(previous: Option<Seq<char>>) -> Seq<char> {
    match previous {
        Some(text) => text,
        None => "N/A"@,
    }
}

/// The lines that announce the bests of the first `n` of the four metrics,
/// in the order weight, reps, duration, distance: a line for each best that
/// is to be shown under the settings.
pub open spec fn spec_pb_messages(
    pb: PBInfo,
    units: Units,
    settings: PbNotificationConfig,
    n: int,
) -> Seq<Seq<char>>
    decreases n,
{
    if n <= 0 {
        Seq::empty()
    } else {
        let earlier = spec_pb_messages(pb, units, settings, n - 1);
        if n == 1 {
            match spec_display_pb(pb.weight, settings.notify_weight) {
                Some(shown) => earlier.push(
                    "New Max Weight: "@ + spec_hundredths_text(spec_weight_hundredths(shown.0))
                        + " "@ + spec_weight_abbr(units) + " (Previous: "@ + spec_previous_text(
                        match pb.weight.previous_value {
                            Some(v) => Some(spec_hundredths_text(spec_weight_hundredths(v))),
                            None => None,
                        },
                    ) + ")"@,
                ),
                None => earlier,
            }
        } else if n == 2 {
            match spec_display_pb(pb.reps, settings.notify_reps) {
                Some(shown) => earlier.push(
                    "New Max Reps: "@ + decimal(shown.0 as int) + " (Previous: "@
                        + spec_previous_text(
                        match pb.reps.previous_value {
                            Some(v) => Some(decimal(v as int)),
                            None => None,
                        },
                    ) + ")"@,
                ),
                None => earlier,
            }
        } else if n == 3 {
            match spec_display_pb(pb.duration, settings.notify_duration) {
                Some(shown) => earlier.push(
                    "New Max Duration: "@ + decimal(shown.0 as int) + " min (Previous: "@
                        + spec_previous_text(
                        match pb.duration.previous_value {
                            Some(v) => Some(decimal(v as int) + " min"@),
                            None => None,
                        },
                    ) + ")"@,
                ),
                None => earlier,
            }
        } else if n == 4 {
            match spec_display_pb(pb.distance, settings.notify_distance) {
                Some(shown) => earlier.push(
                    "New Max Distance: "@ + spec_hundredths_text(
                        spec_distance_hundredths(shown.0, units),
                    ) + " "@ + spec_distance_abbr(units) + " (Previous: "@ + spec_previous_text(
                        match pb.distance.previous_value {
                            Some(v) => Some(
                                spec_hundredths_text(spec_distance_hundredths(v, units)) + " "@
                                    + spec_distance_abbr(units),
                            ),
                            None => None,
                        },
                    ) + ")"@,
                ),
                None => earlier,
            }
        } else {
            earlier
        }
    }
}

/// Appends a line to a list of lines.
fn push_line(lines: &mut Vec<String>, line: String)
    ensures
        texts_view(final(lines)@) == texts_view(old(lines)@).push(line@),
{
    lines.push(line);
    assert(texts_view(lines@) =~= texts_view(old(lines)@).push(line@));
}

/// The lines that announce the personal bests of a workout: a line for each
/// metric in which a best was achieved, whose notification is on, and whose
/// value does not merely repeat the previous best. No line means that there
/// is nothing to announce.
pub fn pb_messages(pb: &PBInfo, units: Units, settings: &PbNotificationConfig) -> (r: Vec<String>)
    ensures
        texts_view(r@) == spec_pb_messages(*pb, units, *settings, 4),
{
    let mut lines: Vec<String> = Vec::new();
    assert(texts_view(lines@) =~= spec_pb_messages(*pb, units, *settings, 0));
    if let Some(shown) = should_display_pb(&pb.weight, settings.notify_weight) {
        let previous = match pb.weight.previous_value {
            Some(v) => weight_text(v),
            None => String::from_str("N/A"),
        };
        push_line(
            &mut lines,
            String::from_str("New Max Weight: ").concat(weight_text(shown.0).as_str()).concat(
                " ",
            ).concat(weight_abbr(units)).concat(" (Previous: ").concat(previous.as_str()).concat(
                ")",
            ),
        );
    }
    assert(texts_view(lines@) == spec_pb_messages(*pb, units, *settings, 1));
    if let Some(shown) = should_display_pb(&pb.reps, settings.notify_reps) {
        let previous = match pb.reps.previous_value {
            Some(v) => integer_text(v),
            None => String::from_str("N/A"),
        };
        push_line(
            &mut lines,
            String::from_str("New Max Reps: ").concat(integer_text(shown.0).as_str()).concat(
                " (Previous: ",
            ).concat(previous.as_str()).concat(")"),
        );
    }
    assert(texts_view(lines@) == spec_pb_messages(*pb, units, *settings, 2));
    if let Some(shown) = should_display_pb(&pb.duration, settings.notify_duration) {
        let previous = match pb.duration.previous_value {
            Some(v) => integer_text(v).concat(" min"),
            None => String::from_str("N/A"),
        };
        push_line(
            &mut lines,
            String::from_str("New Max Duration: ").concat(integer_text(shown.0).as_str()).concat(
                " min (Previous: ",
            ).concat(previous.as_str()).concat(")"),
        );
    }
    assert(texts_view(lines@) == spec_pb_messages(*pb, units, *settings, 3));
    if let Some(shown) = should_display_pb(&pb.distance, settings.notify_distance) {
        let previous = match pb.distance.previous_value {
            Some(v) => distance_text(v, units).concat(" ").concat(distance_abbr(units)),
            None => String::from_str("N/A"),
        };
        push_line(
            &mut lines,
            String::from_str("New Max Distance: ").concat(
                distance_text(shown.0, units).as_str(),
            ).concat(" ").concat(distance_abbr(units)).concat(" (Previous: ").concat(
                previous.as_str(),
            ).concat(")"),
        );
    }
    lines
}

/// An optional integer in decimal, or the placeholder.
pub fn integer_or(value: Option<i64>, csv: bool) -> (r: String)
    ensures
        r@ == spec_integer_or(value, csv),
{
    match value {
        Some(v) => integer_text(v),
        None => String::from_str(if csv { "" } else { "-" }),
    }
}

/// An optional weight with two decimals, or the placeholder.
pub fn weight_or(value: Option<i64>, csv: bool) -> (r: String)
    ensures
        r@ == spec_weight_or(value, csv),
{
    match value {
        Some(v) => weight_text(v),
        None => String::from_str(if csv { "" } else { "-" }),
    }
}

/// The tags of a list, separated by commas.
pub fn joined(tags: &Vec<String>) -> (r: String)
    ensures
        r@ == spec_joined(tags@, tags.len() as int),
{
    let mut out = String::new();
    let mut i: usize = 0;
    while i < tags.len()
        invariant
            0 <= i <= tags.len(),
            out@ == spec_joined(tags@, i as int),
        decreases tags.len() - i,
    {
        if i == 0 {
            assert(Seq::<char>::empty() + tags@[0]@ =~= tags@[0]@);
            out = out.concat(tags[i].as_str());
        } else {
            out = out.concat(",").concat(tags[i].as_str());
        }
        i = i + 1;
    }
    out
}

/// The cells of a workout in the workout report. The weight shown is the
/// effective weight, in a table and in CSV alike. What is missing shows as
/// a hyphen in a table and as nothing in CSV. The time of the workout comes
/// written by the caller.
pub open spec fn spec_workout_cells(w: Workout, units: Units, time: Seq<char>, csv: bool) -> Seq<
    Seq<char>,
> {
    seq![
        decimal(w.id as int),
        time,
        w.exercise_name@,
        match w.exercise_type {
            Some(kind) => spec_exercise_type_text(kind),
            None => spec_placeholder(csv),
        },
        spec_integer_or(w.sets, csv),
        spec_integer_or(w.reps, csv),
        spec_weight_or(crate::model::spec_effective_weight(w), csv),
        spec_integer_or(w.duration_minutes, csv),
        match w.distance {
            Some(metres) => spec_hundredths_text(spec_distance_hundredths(metres, units)),
            None => spec_placeholder(csv),
        },
        match w.notes {
            Some(text) => text@,
            None => spec_placeholder(csv),
        },
    ]
}

/// The headers of the workout report.
pub open spec fn spec_workout_headers(units: Units, csv: bool) -> Seq<Seq<char>> {
    if csv {
        seq![
            "ID"@,
            "Timestamp_UTC"@,
            "Exercise"@,
            "Type"@,
            "Sets"@,
            "Reps"@,
            "Weight_"@ + spec_weight_abbr(units),
            "Duration_min"@,
            "Distance_"@ + spec_distance_abbr(units),
            "Notes"@,
        ]
    } else {
        seq![
            "ID"@,
            "Timestamp (Local)"@,
            "Exercise"@,
            "Type"@,
            "Sets"@,
            "Reps"@,
            "Weight ("@ + spec_weight_abbr(units) + ")"@,
            "Duration (min)"@,
            "Distance ("@ + spec_distance_abbr(units) + ")"@,
            "Notes"@,
        ]
    }
}

/// The cells of a workout in the workout report.
pub fn workout_cells(w: &Workout, units: Units, time: &str, csv: bool) -> (r: Vec<String>)
    ensures
        texts_view(r@) == spec_workout_cells(*w, units, time@, csv),
{
    let blank = if csv {
        ""
    } else {
        "-"
    };
    let mut cells: Vec<String> = Vec::new();
    assert(texts_view(cells@) =~= Seq::empty());
    push_cell(&mut cells, integer_text(w.id));
    push_cell(&mut cells, String::from_str(time));
    push_cell(&mut cells, w.exercise_name.clone());
    push_cell(
        &mut cells,
        String::from_str(
            match w.exercise_type {
                Some(kind) => exercise_type_text(kind),
                None => blank,
            },
        ),
    );
    push_cell(&mut cells, integer_or(w.sets, csv));
    push_cell(&mut cells, integer_or(w.reps, csv));
    push_cell(&mut cells, weight_or(w.calculate_effective_weight(), csv));
    push_cell(&mut cells, integer_or(w.duration_minutes, csv));
    push_cell(
        &mut cells,
        match w.distance {
            Some(metres) => distance_text(metres, units),
            None => String::from_str(blank),
        },
    );
    push_cell(
        &mut cells,
        match &w.notes {
            Some(text) => text.clone(),
            None => String::from_str(blank),
        },
    );
    proof {
        let model = spec_workout_cells(*w, units, time@, csv);
        let built = texts_view(cells@);
        assert(built.len() == 10);
        assert(built[0] == model[0]);
        assert(built[1] == model[1]);
        assert(built[2] == model[2]);
        assert(built[3] == model[3]);
        assert(built[4] == model[4]);
        assert(built[5] == model[5]);
        assert(built[6] == model[6]);
        assert(built[7] == model[7]);
        assert(built[8] == model[8]);
        assert(built[9] == model[9]);
        assert(built =~= model);
    }
    cells
}

/// The headers of the workout report.
pub fn workout_headers(units: Units, csv: bool) -> (r: Vec<String>)
    ensures
        texts_view(r@) == spec_workout_headers(units, csv),
{
    let mut cells: Vec<String> = Vec::new();
    assert(texts_view(cells@) =~= Seq::empty());
    push_cell(&mut cells, String::from_str("ID"));
    push_cell(&mut cells, String::from_str(if csv { "Timestamp_UTC" } else { "Timestamp (Local)" }));
    push_cell(&mut cells, String::from_str("Exercise"));
    push_cell(&mut cells, String::from_str("Type"));
    push_cell(&mut cells, String::from_str("Sets"));
    push_cell(&mut cells, String::from_str("Reps"));
    push_cell(
        &mut cells,
        if csv {
            String::from_str("Weight_").concat(weight_abbr(units))
        } else {
            String::from_str("Weight (").concat(weight_abbr(units)).concat(")")
        },
    );
    push_cell(&mut cells, String::from_str(if csv { "Duration_min" } else { "Duration (min)" }));
    push_cell(
        &mut cells,
        if csv {
            String::from_str("Distance_").concat(distance_abbr(units))
        } else {
            String::from_str("Distance (").concat(distance_abbr(units)).concat(")")
        },
    );
    push_cell(&mut cells, String::from_str("Notes"));
    proof {
        let model = spec_workout_headers(units, csv);
        let built = texts_view(cells@);
        assert(built.len() == 10);
        assert(built[0] == model[0]);
        assert(built[1] == model[1]);
        assert(built[2] == model[2]);
        assert(built[3] == model[3]);
        assert(built[4] == model[4]);
        assert(built[5] == model[5]);
        assert(built[6] == model[6]);
        assert(built[7] == model[7]);
        assert(built[8] == model[8]);
        assert(built[9] == model[9]);
        assert(built =~= model);
    }
    cells
}

/// The rows of the statistics in CSV, the header row first: the figures of
/// the statistics table, then the four bests, an absent best as an empty
/// value.
pub open spec fn spec_stats_csv_rows(stats: ExerciseStats, units: Units) -> Seq<Seq<Seq<char>>> {
    seq![
        seq!["Statistic"@, "Value"@],
        seq!["Exercise_Name"@, stats.canonical_name@],
        seq!["Total_Workouts"@, decimal(stats.total_workouts as int)],
        seq!["First_Workout"@, spec_optional_date_text(stats.first_workout_date)],
        seq!["Last_Workout"@, spec_optional_date_text(stats.last_workout_date)],
        seq!["Avg_Workouts_Per_Week"@, spec_average_text(stats.avg_workouts_per_week)],
        seq![
            "Longest_Gap_Days"@,
            match stats.longest_gap_days {
                Some(gap) => decimal(gap as int),
                None => "N/A"@,
            },
        ],
        seq!["Streak_Interval_Days"@, decimal(stats.streak_interval_days as int)],
        seq!["Current_Streak"@, decimal(stats.current_streak as int)],
        seq!["Longest_Streak"@, decimal(stats.longest_streak as int)],
        seq![
            "PB_Max_Weight_"@ + spec_weight_abbr(units),
            spec_weight_or(stats.personal_bests.max_weight, true),
        ],
        seq!["PB_Max_Reps"@, spec_integer_or(stats.personal_bests.max_reps, true)],
        seq![
            "PB_Max_Duration_min"@,
            spec_integer_or(stats.personal_bests.max_duration_minutes, true),
        ],
        seq![
            "PB_Max_Distance_"@ + spec_distance_abbr(units),
            match stats.personal_bests.max_distance {
                Some(metres) => spec_hundredths_text(spec_distance_hundredths(metres, units)),
                None => ""@,
            },
        ],
    ]
}

/// The rows of the statistics in CSV, the header row first.
pub fn stats_csv_rows(stats: &ExerciseStats, units: Units) -> (r: Vec<Vec<String>>)
    ensures
        rows_view(r@) == spec_stats_csv_rows(*stats, units),
{
    let mut rows: Vec<Vec<String>> = Vec::new();
    assert(rows_view(rows@) =~= Seq::empty());
    push_row(&mut rows, pair(String::from_str("Statistic"), String::from_str("Value")));
    push_row(&mut rows, pair(String::from_str("Exercise_Name"), stats.canonical_name.clone()));
    push_row(
        &mut rows,
        pair(String::from_str("Total_Workouts"), count_text(stats.total_workouts)),
    );
    push_row(
        &mut rows,
        pair(String::from_str("First_Workout"), optional_date_text(stats.first_workout_date)),
    );
    push_row(
        &mut rows,
        pair(String::from_str("Last_Workout"), optional_date_text(stats.last_workout_date)),
    );
    push_row(
        &mut rows,
        pair(String::from_str("Avg_Workouts_Per_Week"), average_text(stats.avg_workouts_per_week)),
    );
    let gap = match stats.longest_gap_days {
        Some(gap) => integer_text(gap),
        None => String::from_str("N/A"),
    };
    push_row(&mut rows, pair(String::from_str("Longest_Gap_Days"), gap));
    push_row(
        &mut rows,
        pair(
            String::from_str("Streak_Interval_Days"),
            std_i128_to_string(stats.streak_interval_days as i128),
        ),
    );
    push_row(
        &mut rows,
        pair(String::from_str("Current_Streak"), count_text(stats.current_streak)),
    );
    push_row(
        &mut rows,
        pair(String::from_str("Longest_Streak"), count_text(stats.longest_streak)),
    );
    push_row(
        &mut rows,
        pair(
            String::from_str("PB_Max_Weight_").concat(weight_abbr(units)),
            weight_or(stats.personal_bests.max_weight, true),
        ),
    );
    push_row(
        &mut rows,
        pair(String::from_str("PB_Max_Reps"), integer_or(stats.personal_bests.max_reps, true)),
    );
    push_row(
        &mut rows,
        pair(
            String::from_str("PB_Max_Duration_min"),
            integer_or(stats.personal_bests.max_duration_minutes, true),
        ),
    );
    let distance = match stats.personal_bests.max_distance {
        Some(metres) => distance_text(metres, units),
        None => String::from_str(""),
    };
    push_row(
        &mut rows,
        pair(String::from_str("PB_Max_Distance_").concat(distance_abbr(units)), distance),
    );
    proof {
        let model = spec_stats_csv_rows(*stats, units);
        let built = rows_view(rows@);
        assert(built.len() == 14);
        assert(built[0] == model[0]);
        assert(built[1] == model[1]);
        assert(built[2] == model[2]);
        assert(built[3] == model[3]);
        assert(built[4] == model[4]);
        assert(built[5] == model[5]);
        assert(built[6] == model[6]);
        assert(built[7] == model[7]);
        assert(built[8] == model[8]);
        assert(built[9] == model[9]);
        assert(built[10] == model[10]);
        assert(built[11] == model[11]);
        assert(built[12] == model[12]);
        assert(built[13] == model[13]);
        assert(built =~= model);
    }
    rows
}

/// The cells of an exercise in the exercise report: id, name, type and the
/// muscles, separated by commas; an exercise without muscles shows the
/// placeholder.
pub open spec fn spec_exercise_cells(exercise: ExerciseDefinition, csv: bool) -> Seq<Seq<char>> {
    seq![
        decimal(exercise.id as int),
        exercise.name@,
        spec_exercise_type_text(exercise.type_),
        if exercise.muscles@.len() == 0 {
            spec_placeholder(csv)
        } else {
            spec_joined(exercise.muscles@, exercise.muscles@.len() as int)
        },
    ]
}

/// The cells of an exercise in the exercise report.
pub fn exercise_cells(exercise: &ExerciseDefinition, csv: bool) -> (r: Vec<String>)
    ensures
        texts_view(r@) == spec_exercise_cells(*exercise, csv),
{
    let mut cells: Vec<String> = Vec::new();
    assert(texts_view(cells@) =~= Seq::empty());
    push_cell(&mut cells, integer_text(exercise.id));
    push_cell(&mut cells, exercise.name.clone());
    push_cell(&mut cells, String::from_str(exercise_type_text(exercise.type_)));
    push_cell(
        &mut cells,
        if exercise.muscles.len() == 0 {
            String::from_str(if csv { "" } else { "-" })
        } else {
            joined(&exercise.muscles)
        },
    );
    proof {
        let model = spec_exercise_cells(*exercise, csv);
        let built = texts_view(cells@);
        assert(built.len() == 4);
        assert(built[0] == model[0]);
        assert(built[1] == model[1]);
        assert(built[2] == model[2]);
        assert(built[3] == model[3]);
        assert(built =~= model);
    }
    cells
}

/// The headers of the exercise report.
pub fn exercise_headers() -> (r: Vec<String>)
    ensures
        texts_view(r@) == seq!["ID"@, "Name"@, "Type"@, "Muscles"@],
{
    let mut cells: Vec<String> = Vec::new();
    assert(texts_view(cells@) =~= Seq::empty());
    push_cell(&mut cells, String::from_str("ID"));
    push_cell(&mut cells, String::from_str("Name"));
    push_cell(&mut cells, String::from_str("Type"));
    push_cell(&mut cells, String::from_str("Muscles"));
    assert(texts_view(cells@) =~= seq!["ID"@, "Name"@, "Type"@, "Muscles"@]);
    cells
}

/// The headers of the alias report.
pub fn alias_headers(csv: bool) -> (r: Vec<String>)
    ensures
        texts_view(r@) == if csv {
            seq!["Alias"@, "Canonical_Exercise_Name"@]
        } else {
            seq!["Alias"@, "Canonical Exercise Name"@]
        },
{
    pair(
        String::from_str("Alias"),
        String::from_str(
            if csv {
                "Canonical_Exercise_Name"
            } else {
                "Canonical Exercise Name"
            },
        ),
    )
}

/// The cells of a row of the volume report: the day, the exercise and the
/// volume with two decimals.
pub open spec fn spec_volume_cells(row: VolumeRow) -> Seq<Seq<char>> {
    seq![
        spec_date_text(row.date),
        row.exercise_name@,
        spec_hundredths_text(spec_weight_hundredths(row.volume)),
    ]
}

/// The headers of the volume report.
pub open spec fn spec_volume_headers(units: Units, csv: bool) -> Seq<Seq<char>> {
    if csv {
        seq!["Date"@, "Exercise"@, "Volume_Sets*Reps*Weight_"@ + spec_weight_abbr(units)]
    } else {
        seq!["Date"@, "Exercise"@, "Volume (Sets*Reps*Weight "@ + spec_weight_abbr(units) + ")"@]
    }
}

/// The cells of a row of the volume report.
pub fn volume_cells(row: &VolumeRow) -> (r: Vec<String>)
    ensures
        texts_view(r@) == spec_volume_cells(*row),
{
    let mut cells: Vec<String> = Vec::new();
    assert(texts_view(cells@) =~= Seq::empty());
    push_cell(&mut cells, date_text(row.date));
    push_cell(&mut cells, row.exercise_name.clone());
    push_cell(&mut cells, weight_text(row.volume));
    assert(texts_view(cells@) =~= spec_volume_cells(*row));
    cells
}

/// The headers of the volume report.
pub fn volume_headers(units: Units, csv: bool) -> (r: Vec<String>)
    ensures
        texts_view(r@) == spec_volume_headers(units, csv),
{
    let mut cells: Vec<String> = Vec::new();
    assert(texts_view(cells@) =~= Seq::empty());
    push_cell(&mut cells, String::from_str("Date"));
    push_cell(&mut cells, String::from_str("Exercise"));
    push_cell(
        &mut cells,
        if csv {
            String::from_str("Volume_Sets*Reps*Weight_").concat(weight_abbr(units))
        } else {
            String::from_str("Volume (Sets*Reps*Weight ").concat(weight_abbr(units)).concat(")")
        },
    );
    assert(texts_view(cells@) =~= spec_volume_headers(units, csv));
    cells
}

/// The cells of a bodyweight measurement: id, the time as the caller wrote
/// it, and the weight with two decimals.
pub open spec fn spec_bodyweight_cells(entry: BodyweightEntry, time: Seq<char>) -> Seq<Seq<char>> {
    seq![decimal(entry.id as int), time, spec_hundredths_text(spec_weight_hundredths(entry.weight))]
}

/// The headers of the bodyweight report.
pub open spec fn spec_bodyweight_headers(units: Units, csv: bool) -> Seq<Seq<char>> {
    if csv {
        seq!["Id"@, "Timestamp_UTC"@, "Weight_"@ + spec_weight_abbr(units)]
    } else {
        seq!["Id"@, "Timestamp (Local)"@, "Weight ("@ + spec_weight_abbr(units) + ")"@]
    }
}

/// The cells of a bodyweight measurement.
pub fn bodyweight_cells(entry: &BodyweightEntry, time: &str) -> (r: Vec<String>)
    ensures
        texts_view(r@) == spec_bodyweight_cells(*entry, time@),
{
    let mut cells: Vec<String> = Vec::new();
    assert(texts_view(cells@) =~= Seq::empty());
    push_cell(&mut cells, integer_text(entry.id));
    push_cell(&mut cells, String::from_str(time));
    push_cell(&mut cells, weight_text(entry.weight));
    assert(texts_view(cells@) =~= spec_bodyweight_cells(*entry, time@));
    cells
}

/// The headers of the bodyweight report.
pub fn bodyweight_headers(units: Units, csv: bool) -> (r: Vec<String>)
    ensures
        texts_view(r@) == spec_bodyweight_headers(units, csv),
{
    let mut cells: Vec<String> = Vec::new();
    assert(texts_view(cells@) =~= Seq::empty());
    push_cell(&mut cells, String::from_str("Id"));
    push_cell(&mut cells, String::from_str(if csv { "Timestamp_UTC" } else { "Timestamp (Local)" }));
    push_cell(
        &mut cells,
        if csv {
            String::from_str("Weight_").concat(weight_abbr(units))
        } else {
            String::from_str("Weight (").concat(weight_abbr(units)).concat(")")
        },
    );
    assert(texts_view(cells@) =~= spec_bodyweight_headers(units, csv));
    cells
}

} // verus!
