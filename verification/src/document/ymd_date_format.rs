//! Dates written as year, month and day, such as `2024-02-01`.

use vstd::prelude::*;

use crate::json::{JsonModel, JsonValue};
use crate::search::date::{date_of_text, ymd_text_of_day, Date};

verus! {

/// The date that a value gives: the value is a text that writes a date as
/// year, month and day.
pub open spec fn date_of_value(value: JsonModel) -> Option<Date> {
    match value {
        JsonModel::Text(text) => date_of_text(text),
        _ => None,
    }
}

/// The value that writes a date: the text of its year, month and day, or
/// `None` where the date cannot be written.
pub open spec fn value_of_date(date: Date) -> Option<JsonModel> {
    match ymd_text_of_day(date.days_from_ce) {
        Some(text) => Some(JsonModel::Text(text)),
        None => None,
    }
}

/// Writes a date as a text of year, month and day.
pub fn serialize(date: &Date) -> (value: Option<JsonValue>)
    ensures
        match value {
            Some(v) => value_of_date(*date) == Some(v.model()),
            None => value_of_date(*date) is None,
        },
{
    match date.to_ymd() {
        Some(text) => Some(JsonValue::Text(text)),
        None => None,
    }
}

/// Reads a date from a text written as year, month and day.
pub fn deserialize(value: &JsonValue) -> (date: Option<Date>)
    ensures
        date == date_of_value(value.model()),
{
    match value {
        JsonValue::Text(text) => Date::parse(text.as_str()),
        _ => None,
    }
}

} // verus!
