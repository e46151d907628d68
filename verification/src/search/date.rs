//! Calendar days.

use std::fmt::Write;

use chrono::Datelike;
use chrono::NaiveDate;
use vstd::prelude::*;

verus! {

/// A calendar day, held as its number in the proleptic Gregorian calendar:
/// day 1 is the first of January of the year 1.
#[derive(Clone, Copy, Debug, PartialEq, Eq, Structural)]
pub struct Date {
    pub days_from_ce: i32,
}

/// The day number of the date that `text` writes as year, month and day
/// (`2024-02-01`), or `None` where `text` writes no date.
pub uninterp spec fn ymd_day_number(text: Seq<char>) -> Option<i32>;

/// The text that writes the day of number `days_from_ce` as year, month and
/// day (`2024-02-01`), or `None` where that number names no day that can be
/// written.
pub uninterp spec fn ymd_text_of_day(days_from_ce: i32) -> Option<Seq<char>>;

/// The date that `text` writes as year, month and day.
pub open spec fn date_of_text(text: Seq<char>) -> Option<Date> {
    match ymd_day_number(text) {
        Some(days_from_ce) => Some(Date { days_from_ce }),
        None => None,
    }
}

/// Whole days from `from` to `to`; negative when `to` is the earlier day.
pub open spec fn days_between(from: Date, to: Date) -> int {
    to.days_from_ce - from.days_from_ce
}

/// Calls `chrono::NaiveDate::parse_from_str` with the format `%Y-%m-%d` and
/// takes the day number of the date it gives with
/// `chrono::Datelike::num_days_from_ce`.
///
/// Nothing is proved of chrono's parser: the contract only gives its result
/// a name, `ymd_day_number`, which rests on the parser reading the same
/// text to the same date every time.
#[verifier::external_body]
fn parse_ymd_day_number(text: &str) -> (day: Option<i32>)
    ensures
        day == ymd_day_number(text@),
{
    match NaiveDate::parse_from_str(text, "%Y-%m-%d") {
        Ok(date) => Some(date.num_days_from_ce()),
        Err(_) => None,
    }
}

/// Makes a date of the day number with
/// `chrono::NaiveDate::from_num_days_from_ce_opt` and writes it with
/// `chrono::NaiveDate::format` and the format `%Y-%m-%d`.
///
/// Nothing is proved of chrono's calendar or formatter: the contract only
/// gives the text a name, `ymd_text_of_day`, which rests on the same day
/// number being written to the same text every time.
#[verifier::external_body]
fn format_ymd_day_number(days_from_ce: i32) -> (text: Option<String>)
    ensures
        match text {
            Some(t) => ymd_text_of_day(days_from_ce) == Some(t@),
            None => ymd_text_of_day(days_from_ce) is None,
        },
{
    match NaiveDate::from_num_days_from_ce_opt(days_from_ce) {
        Some(date) => {
            let mut text = String::new();
            match write!(text, "{}", date.format("%Y-%m-%d")) {
                Ok(()) => Some(text),
                Err(_) => None,
            }
        },
        None => None,
    }
}

impl Date {
    /// Writes the date as year, month and day; `None` where its day number
    /// names no day that can be written.
    pub fn to_ymd(&self) -> (text: Option<String>)
        ensures
            match text {
                Some(t) => ymd_text_of_day(self.days_from_ce) == Some(t@),
                None => ymd_text_of_day(self.days_from_ce) is None,
            },
    {
        format_ymd_day_number(self.days_from_ce)
    }

    /// Reads a date written as year, month and day.
    pub fn parse(text: &str) -> (date: Option<Date>)
        ensures
            date == date_of_text(text@),
    {
        match parse_ymd_day_number(text) {
            Some(days_from_ce) => Some(Date { days_from_ce }),
            None => None,
        }
    }

    /// Whole days from `self` to `later`; negative when `later` is the
    /// earlier day.
    pub fn days_until(&self, later: &Date) -> (days: i64)
        ensures
            days == days_between(*self, *later),
    {
        later.days_from_ce as i64 - self.days_from_ce as i64
    }
}

} // verus!
