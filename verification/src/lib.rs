//! Analytics for a personal training log: effective weights, personal bests,
//! streaks, daily volume and per-exercise statistics, together with the
//! decisions a command-line front end takes around them and the texts it
//! shows.
//!
//! Every quantity is an integer, so every comparison is exact: weights are
//! whole thousandths of the configured weight unit, distances whole metres,
//! durations whole minutes, and a day is its day number in the proleptic
//! Gregorian calendar. Sums and products saturate at the bounds of `i64`.
//!
//! The library reads and writes nothing. Records and settings come in as
//! plain values and results go out as plain values; the caller keeps them.
//! The current day is an argument wherever a result depends on it; only
//! `date::today_utc` and `date::parse_date_shorthand` look at the clock.

pub mod bodyweight;
pub mod calendar;
pub mod catalog;
pub mod cli;
pub mod config;
pub mod date;
pub mod error;
pub mod history;
pub mod listing;
pub mod model;
pub mod pb;
pub mod quantity;
pub mod report;
pub mod stats;
pub mod streak;
pub mod table;
pub mod text;
pub mod volume;
