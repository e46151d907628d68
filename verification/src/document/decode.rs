//! Reading a search from a document.

use vstd::prelude::*;

use super::ymd_date_format::date_of_value;
use super::ymd_date_format_optional::optional_date_of_value;
use super::{ymd_date_format, ymd_date_format_optional, ParseSearchError, SearchField};
use crate::currency_exchange::{currency_of_code, Currency};
use crate::decimal::{micros_of_number, micros_of_text, parse_micros};
use crate::fail_fast::{lemma_try_map_failure_persists, lemma_try_map_step, try_map};
use crate::json::{JsonModel, JsonObject, JsonValue};
use crate::search::date::Date;
use crate::search::flight::{flight_views, Flight, FlightView};
use crate::search::reco::{reco_views, Reco, RecoView};
use crate::search::{Search, SearchView};

verus! {

/// The members of an object, by name.
pub type Members = Map<Seq<char>, JsonModel>;

/// The text of a member that must be there.
pub open spec fn text_member(members: Members, field: SearchField) -> Result<
    Seq<char>,
    ParseSearchError,
> {
    if !members.contains_key(field.name()) {
        Err(ParseSearchError::MissingField(field))
    } else {
        match members[field.name()] {
            JsonModel::Text(text) => Ok(text),
            _ => Err(ParseSearchError::InvalidField(field)),
        }
    }
}

/// The text of a member that may be left out or null.
pub open spec fn optional_text_member(members: Members, field: SearchField) -> Result<
    Option<Seq<char>>,
    ParseSearchError,
> {
    if !members.contains_key(field.name()) {
        Ok(None)
    } else {
        match members[field.name()] {
            JsonModel::Null => Ok(None),
            JsonModel::Text(text) => Ok(Some(text)),
            _ => Err(ParseSearchError::InvalidField(field)),
        }
    }
}

/// The items of a member that must be there and hold an array.
pub open spec fn array_member(members: Members, field: SearchField) -> Result<
    Seq<JsonModel>,
    ParseSearchError,
> {
    if !members.contains_key(field.name()) {
        Err(ParseSearchError::MissingField(field))
    } else {
        match members[field.name()] {
            JsonModel::Array(items) => Ok(items),
            _ => Err(ParseSearchError::InvalidField(field)),
        }
    }
}

/// The amount that a value gives, in millionths: the value is a number, or
/// a text that writes one in plain decimal notation.
pub open spec fn amount_of(value: JsonModel) -> Option<u64> {
    match value {
        JsonModel::Number(number) => micros_of_number(number),
        JsonModel::Text(text) => micros_of_text(text),
        _ => None,
    }
}

/// The amount of a member that must be there.
pub open spec fn amount_member(members: Members, field: SearchField) -> Result<
    u64,
    ParseSearchError,
> {
    if !members.contains_key(field.name()) {
        Err(ParseSearchError::MissingField(field))
    } else {
        match amount_of(members[field.name()]) {
            Some(amount) => Ok(amount),
            None => Err(ParseSearchError::InvalidField(field)),
        }
    }
}

/// The date of a member that must be there.
pub open spec fn date_member(members: Members, field: SearchField) -> Result<
    Date,
    ParseSearchError,
> {
    if !members.contains_key(field.name()) {
        Err(ParseSearchError::MissingField(field))
    } else {
        match date_of_value(members[field.name()]) {
            Some(date) => Ok(date),
            None => Err(ParseSearchError::InvalidField(field)),
        }
    }
}

/// The date of a member that may be left out or empty.
pub open spec fn optional_date_member(members: Members, field: SearchField) -> Result<
    Option<Date>,
    ParseSearchError,
> {
    if !members.contains_key(field.name()) {
        Ok(None)
    } else {
        match optional_date_of_value(members[field.name()]) {
            Some(date) => Ok(date),
            None => Err(ParseSearchError::InvalidField(field)),
        }
    }
}

/// The flight that a value describes.
pub open spec fn decoded_flight(value: JsonModel) -> Result<FlightView, ParseSearchError> {
    match value {
        JsonModel::Object(members) => match (
            text_member(members, SearchField::DepAirport),
            text_member(members, SearchField::ArrAirport),
            text_member(members, SearchField::MarketingAirline),
            optional_text_member(members, SearchField::OperatingAirline),
            text_member(members, SearchField::Cabin),
        ) {
            (Err(e), _, _, _, _) => Err(e),
            (_, Err(e), _, _, _) => Err(e),
            (_, _, Err(e), _, _) => Err(e),
            (_, _, _, Err(e), _) => Err(e),
            (_, _, _, _, Err(e)) => Err(e),
            (
                Ok(dep_airport),
                Ok(arr_airport),
                Ok(marketing_airline),
                Ok(operating_airline),
                Ok(cabin),
            ) => Ok(
                FlightView {
                    dep_airport,
                    arr_airport,
                    marketing_airline,
                    operating_airline,
                    cabin,
                },
            ),
        },
        _ => Err(ParseSearchError::NotAnObject),
    }
}

/// Reading a flight, whatever its position.
pub open spec fn flight_decoder() -> spec_fn(int, JsonModel) -> Result<
    FlightView,
    ParseSearchError,
> {
    |i: int, value: JsonModel| decoded_flight(value)
}

/// The recommendation that a value describes.
pub open spec fn decoded_reco(value: JsonModel) -> Result<RecoView, ParseSearchError> {
    match value {
        JsonModel::Object(members) => match (
            amount_member(members, SearchField::Price),
            amount_member(members, SearchField::Taxes),
            amount_member(members, SearchField::Fees),
            array_member(members, SearchField::Flights),
        ) {
            (Err(e), _, _, _) => Err(e),
            (_, Err(e), _, _) => Err(e),
            (_, _, Err(e), _) => Err(e),
            (_, _, _, Err(e)) => Err(e),
            (Ok(price), Ok(taxes), Ok(fees), Ok(items)) => match try_map(
                items,
                flight_decoder(),
            ) {
                Err(e) => Err(e),
                Ok(flights) => Ok(RecoView { price, taxes, fees, flights }),
            },
        },
        _ => Err(ParseSearchError::NotAnObject),
    }
}

/// Reading a recommendation, whatever its position.
pub open spec fn reco_decoder() -> spec_fn(int, JsonModel) -> Result<RecoView, ParseSearchError> {
    |i: int, value: JsonModel| decoded_reco(value)
}

/// The currency of the member `currency`.
pub open spec fn currency_member(members: Members) -> Result<Currency, ParseSearchError> {
    match text_member(members, SearchField::Currency) {
        Err(e) => Err(e),
        Ok(code) => match currency_of_code(code) {
            Some(currency) => Ok(currency),
            None => Err(ParseSearchError::InvalidField(SearchField::Currency)),
        },
    }
}

/// The search that a document describes.
pub open spec fn decoded_search(document: JsonModel) -> Result<SearchView, ParseSearchError> {
    match document {
        JsonModel::Object(members) => match (
            currency_member(members),
            date_member(members, SearchField::SearchDate),
            date_member(members, SearchField::RequestDepDate),
            optional_date_member(members, SearchField::RequestReturnDate),
            text_member(members, SearchField::PassengersString),
            text_member(members, SearchField::OriginCity),
            text_member(members, SearchField::DestinationCity),
            array_member(members, SearchField::Recos),
        ) {
            (Err(e), _, _, _, _, _, _, _) => Err(e),
            (_, Err(e), _, _, _, _, _, _) => Err(e),
            (_, _, Err(e), _, _, _, _, _) => Err(e),
            (_, _, _, Err(e), _, _, _, _) => Err(e),
            (_, _, _, _, Err(e), _, _, _) => Err(e),
            (_, _, _, _, _, Err(e), _, _) => Err(e),
            (_, _, _, _, _, _, Err(e), _) => Err(e),
            (_, _, _, _, _, _, _, Err(e)) => Err(e),
            (
                Ok(currency),
                Ok(search_date),
                Ok(request_dep_date),
                Ok(request_return_date),
                Ok(passengers_string),
                Ok(origin_city),
                Ok(destination_city),
                Ok(items),
            ) => match try_map(items, reco_decoder()) {
                Err(e) => Err(e),
                Ok(recos) => Ok(
                    SearchView {
                        currency,
                        search_date,
                        request_dep_date,
                        request_return_date,
                        passengers_string,
                        origin_city,
                        destination_city,
                        recos,
                    },
                ),
            },
        },
        _ => Err(ParseSearchError::NotAnObject),
    }
}

/// Reads the text of a member that must be there.
fn read_text(object: &JsonObject, field: SearchField) -> (text: Result<String, ParseSearchError>)
    ensures
        match text {
            Ok(t) => text_member(object.model(), field) == Ok::<Seq<char>, ParseSearchError>(t@),
            Err(e) => text_member(object.model(), field) == Err::<Seq<char>, ParseSearchError>(e),
        },
{
    match object.get(field.as_str()) {
        None => Err(ParseSearchError::MissingField(field)),
        Some(JsonValue::Text(text)) => Ok(text.clone()),
        Some(_) => Err(ParseSearchError::InvalidField(field)),
    }
}

/// Reads the text of a member that may be left out or null.
fn read_optional_text(object: &JsonObject, field: SearchField) -> (text: Result<
    Option<String>,
    ParseSearchError,
>)
    ensures
        match text {
            Ok(t) => optional_text_member(object.model(), field) == Ok::<
                Option<Seq<char>>,
                ParseSearchError,
            >(crate::search::typedefs::optional_text(t)),
            Err(e) => optional_text_member(object.model(), field) == Err::<
                Option<Seq<char>>,
                ParseSearchError,
            >(e),
        },
{
    match object.get(field.as_str()) {
        None => Ok(None),
        Some(JsonValue::Null) => Ok(None),
        Some(JsonValue::Text(text)) => Ok(Some(text.clone())),
        Some(_) => Err(ParseSearchError::InvalidField(field)),
    }
}

/// Reads an amount from a number or from a text that writes one. The
/// amount comes back in millionths.
pub fn deserialize_f64(value: &JsonValue) -> (amount: Option<u64>)
    ensures
        amount == amount_of(value.model()),
{
    match value {
        JsonValue::Number(number) => number.to_micros(),
        JsonValue::Text(text) => parse_micros(text.as_str()),
        _ => None,
    }
}

/// Reads the amount of a member that must be there.
fn read_amount(object: &JsonObject, field: SearchField) -> (amount: Result<u64, ParseSearchError>)
    ensures
        amount == amount_member(object.model(), field),
{
    match object.get(field.as_str()) {
        None => Err(ParseSearchError::MissingField(field)),
        Some(value) => match deserialize_f64(value) {
            Some(amount) => Ok(amount),
            None => Err(ParseSearchError::InvalidField(field)),
        },
    }
}

/// Reads the date of a member that must be there.
fn read_date(object: &JsonObject, field: SearchField) -> (date: Result<Date, ParseSearchError>)
    ensures
        date == date_member(object.model(), field),
{
    match object.get(field.as_str()) {
        None => Err(ParseSearchError::MissingField(field)),
        Some(value) => match ymd_date_format::deserialize(value) {
            Some(date) => Ok(date),
            None => Err(ParseSearchError::InvalidField(field)),
        },
    }
}

/// Reads the date of a member that may be left out or empty.
fn read_optional_date(object: &JsonObject, field: SearchField) -> (date: Result<
    Option<Date>,
    ParseSearchError,
>)
    ensures
        date == optional_date_member(object.model(), field),
{
    match object.get(field.as_str()) {
        None => Ok(None),
        Some(value) => match ymd_date_format_optional::deserialize(value) {
            Some(date) => Ok(date),
            None => Err(ParseSearchError::InvalidField(field)),
        },
    }
}

/// Reads one flight of a recommendation.
pub fn decode_flight(value: &JsonValue) -> (flight: Result<Flight, ParseSearchError>)
    ensures
        match flight {
            Ok(f) => decoded_flight(value.model()) == Ok::<FlightView, ParseSearchError>(f@),
            Err(e) => decoded_flight(value.model()) == Err::<FlightView, ParseSearchError>(e),
        },
{
    let object = match value {
        JsonValue::Object(object) => object,
        _ => {
            return Err(ParseSearchError::NotAnObject);
        },
    };
    let dep_airport = match read_text(object, SearchField::DepAirport) {
        Ok(text) => text,
        Err(e) => {
            return Err(e);
        },
    };
    let arr_airport = match read_text(object, SearchField::ArrAirport) {
        Ok(text) => text,
        Err(e) => {
            return Err(e);
        },
    };
    let marketing_airline = match read_text(object, SearchField::MarketingAirline) {
        Ok(text) => text,
        Err(e) => {
            return Err(e);
        },
    };
    let operating_airline = match read_optional_text(object, SearchField::OperatingAirline) {
        Ok(text) => text,
        Err(e) => {
            return Err(e);
        },
    };
    let cabin = match read_text(object, SearchField::Cabin) {
        Ok(text) => text,
        Err(e) => {
            return Err(e);
        },
    };
    Ok(Flight { dep_airport, arr_airport, marketing_airline, operating_airline, cabin })
}

/// Finds the items of a member that must be there and hold an array.
fn read_array<'a>(object: &'a JsonObject, field: SearchField) -> (items: Result<
    &'a Vec<JsonValue>,
    ParseSearchError,
>)
    ensures
        match items {
            Ok(v) => array_member(object.model(), field) == Ok::<Seq<JsonModel>, ParseSearchError>(
                models_of(v@),
            ),
            Err(e) => array_member(object.model(), field) == Err::<
                Seq<JsonModel>,
                ParseSearchError,
            >(e),
        },
{
    match object.get(field.as_str()) {
        None => Err(ParseSearchError::MissingField(field)),
        Some(JsonValue::Array(items)) => {
            proof {
                assert(JsonValue::Array(*items).model()->Array_0 =~= models_of(items@));
            }
            Ok(items)
        },
        Some(_) => Err(ParseSearchError::InvalidField(field)),
    }
}

/// What each of `values` says, in order.
pub open spec fn models_of(values: Seq<JsonValue>) -> Seq<JsonModel> {
    values.map_values(|v: JsonValue| v.model())
}

/// Reads one recommendation of a search.
pub fn decode_reco(value: &JsonValue) -> (reco: Result<Reco, ParseSearchError>)
    ensures
        match reco {
            Ok(r) => decoded_reco(value.model()) == Ok::<RecoView, ParseSearchError>(r@),
            Err(e) => decoded_reco(value.model()) == Err::<RecoView, ParseSearchError>(e),
        },
{
    let object = match value {
        JsonValue::Object(object) => object,
        _ => {
            return Err(ParseSearchError::NotAnObject);
        },
    };
    let price = match read_amount(object, SearchField::Price) {
        Ok(amount) => amount,
        Err(e) => {
            return Err(e);
        },
    };
    let taxes = match read_amount(object, SearchField::Taxes) {
        Ok(amount) => amount,
        Err(e) => {
            return Err(e);
        },
    };
    let fees = match read_amount(object, SearchField::Fees) {
        Ok(amount) => amount,
        Err(e) => {
            return Err(e);
        },
    };
    let items = match read_array(object, SearchField::Flights) {
        Ok(items) => items,
        Err(e) => {
            return Err(e);
        },
    };
    let ghost all = models_of(items@);
    let ghost read = flight_decoder();
    let mut flights: Vec<Flight> = Vec::new();
    let mut i: usize = 0;
    proof {
        assert(all.take(0) =~= Seq::empty());
        assert(flight_views(flights@) =~= Seq::empty());
    }
    while i < items.len()
        invariant
            i <= items.len(),
            all == models_of(items@),
            read == flight_decoder(),
            decoded_reco(value.model()) == match try_map(all, read) {
                Err(e) => Err::<RecoView, ParseSearchError>(e),
                Ok(flights) => Ok(RecoView { price, taxes, fees, flights }),
            },
            try_map(all.take(i as int), read) == Ok::<Seq<FlightView>, ParseSearchError>(
                flight_views(flights@),
            ),
        decreases items.len() - i,
    {
        proof {
            lemma_try_map_step(all, read, i as int);
        }
        match decode_flight(&items[i]) {
            Ok(flight) => {
                let ghost before = flight_views(flights@);
                flights.push(flight);
                assert(flight_views(flights@) =~= before.push(flight@));
            },
            Err(e) => {
                proof {
                    lemma_try_map_failure_persists(all, read, i + 1);
                }
                return Err(e);
            },
        }
        i = i + 1;
    }
    proof {
        assert(all.take(i as int) =~= all);
    }
    Ok(Reco { price, taxes, fees, flights })
}

/// Reads a search from a document.
pub fn decode_search(document: &JsonValue) -> (search: Result<Search, ParseSearchError>)
    ensures
        match search {
            Ok(s) => decoded_search(document.model()) == Ok::<SearchView, ParseSearchError>(s@),
            Err(e) => decoded_search(document.model()) == Err::<SearchView, ParseSearchError>(e),
        },
{
    let object = match document {
        JsonValue::Object(object) => object,
        _ => {
            return Err(ParseSearchError::NotAnObject);
        },
    };
    let code = match read_text(object, SearchField::Currency) {
        Ok(text) => text,
        Err(e) => {
            return Err(e);
        },
    };
    let currency = match Currency::from_code(code.as_str()) {
        Some(currency) => currency,
        None => {
            return Err(ParseSearchError::InvalidField(SearchField::Currency));
        },
    };
    let search_date = match read_date(object, SearchField::SearchDate) {
        Ok(date) => date,
        Err(e) => {
            return Err(e);
        },
    };
    let request_dep_date = match read_date(object, SearchField::RequestDepDate) {
        Ok(date) => date,
        Err(e) => {
            return Err(e);
        },
    };
    let request_return_date = match read_optional_date(object, SearchField::RequestReturnDate) {
        Ok(date) => date,
        Err(e) => {
            return Err(e);
        },
    };
    let passengers_string = match read_text(object, SearchField::PassengersString) {
        Ok(text) => text,
        Err(e) => {
            return Err(e);
        },
    };
    let origin_city = match read_text(object, SearchField::OriginCity) {
        Ok(text) => text,
        Err(e) => {
            return Err(e);
        },
    };
    let destination_city = match read_text(object, SearchField::DestinationCity) {
        Ok(text) => text,
        Err(e) => {
            return Err(e);
        },
    };
    let items = match read_array(object, SearchField::Recos) {
        Ok(items) => items,
        Err(e) => {
            return Err(e);
        },
    };
    let ghost all = models_of(items@);
    let ghost read = reco_decoder();
    let mut recos: Vec<Reco> = Vec::new();
    let mut i: usize = 0;
    proof {
        assert(all.take(0) =~= Seq::empty());
        assert(reco_views(recos@) =~= Seq::empty());
    }
    while i < items.len()
        invariant
            i <= items.len(),
            all == models_of(items@),
            read == reco_decoder(),
            decoded_search(document.model()) == match try_map(all, read) {
                Err(e) => Err::<SearchView, ParseSearchError>(e),
                Ok(recos) => Ok(
                    SearchView {
                        currency,
                        search_date,
                        request_dep_date,
                        request_return_date,
                        passengers_string: passengers_string@,
                        origin_city: origin_city@,
                        destination_city: destination_city@,
                        recos,
                    },
                ),
            },
            try_map(all.take(i as int), read) == Ok::<Seq<RecoView>, ParseSearchError>(
                reco_views(recos@),
            ),
        decreases items.len() - i,
    {
        proof {
            lemma_try_map_step(all, read, i as int);
        }
        match decode_reco(&items[i]) {
            Ok(reco) => {
                let ghost before = reco_views(recos@);
                recos.push(reco);
                assert(reco_views(recos@) =~= before.push(reco@));
            },
            Err(e) => {
                proof {
                    lemma_try_map_failure_persists(all, read, i + 1);
                }
                return Err(e);
            },
        }
        i = i + 1;
    }
    proof {
        assert(all.take(i as int) =~= all);
    }
    Ok(
        Search {
            currency,
            search_date,
            request_dep_date,
            request_return_date,
            passengers_string,
            origin_city,
            destination_city,
            recos,
        },
    )
}

} // verus!
