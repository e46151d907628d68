//! Dates written as year, month and day, where the empty text stands for
//! "no date".

use vstd::prelude::*;

use crate::json::{JsonModel, JsonValue};
use super::ymd_date_format;
use super::ymd_date_format::value_of_date;
use crate::search::date::{date_of_text, Date};

verus! {

/// The date that a value gives, where an empty text stands for "no date":
/// `Some(None)` for the empty text, `Some` of a date for a text that writes
/// one as year, month and day, and `None` for anything else.
pub open spec fn optional_date_of_value(value: JsonModel) -> Option<Option<Date>> {
    match value {
        JsonModel::Text(text) => if text.len() == 0 {
            Some(None)
        } else {
            match date_of_text(text) {
                Some(date) => Some(Some(date)),
                None => None,
            }
        },
        _ => None,
    }
}

/// The value that writes an optional date: the empty text for no date,
/// and else the text of the date's year, month and day.
pub open spec fn value_of_optional_date(date: Option<Date>) -> Option<JsonModel> {
    match date {
        Some(d) => value_of_date(d),
        None => Some(JsonModel::Text(Seq::empty())),
    }
}

/// Writes a date as a text of year, month and day, and no date as the
/// empty text.
pub fn serialize(date: &Option<Date>) -> (value: Option<JsonValue>)
    ensures
        match value {
            Some(v) => value_of_optional_date(*date) == Some(v.model()),
            None => value_of_optional_date(*date) is None,
        },
{
    match date {
        Some(d) => ymd_date_format::serialize(d),
        None => Some(JsonValue::Text(String::new())),
    }
}

/// Reads a date from a text written as year, month and day, or no date
/// from the empty text.
pub fn deserialize(value: &JsonValue) -> (date: Option<Option<Date>>)
    ensures
        date == optional_date_of_value(value.model()),
{
    match value {
        JsonValue::Text(text) => if text.as_str().is_empty() {
            Some(None)
        } else {
            match Date::parse(text.as_str()) {
                Some(date) => Some(Some(date)),
                None => None,
            }
        },
        _ => None,
    }
}

} // verus!
