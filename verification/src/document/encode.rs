//! Writing an enriched search as a document.

use vstd::prelude::*;

use crate::decimal::{cents_of_micros, round_to_cents};
use crate::json::{JsonModel, JsonNumber, JsonObject, JsonValue};
use crate::search::enriched_flight::{enriched_flight_views, EnrichedFlight, EnrichedFlightView};
use crate::search::enriched_reco::{enriched_reco_views, EnrichedReco, EnrichedRecoView};
use crate::search::enriched_search::{EnrichedSearch, EnrichedSearchView, GeoType, Passenger};

verus! {

/// A whole number as a JSON value.
pub open spec fn whole_number(value: u128) -> JsonModel {
    JsonModel::Number(JsonNumber { negative: false, mantissa: value, exponent: 0 })
}

/// An amount in millionths of a euro as a JSON value: the amount in euros,
/// rounded to two decimal places.
pub open spec fn euro_amount(micros: u128) -> JsonModel {
    JsonModel::Number(
        JsonNumber { negative: false, mantissa: cents_of_micros(micros), exponent: -2i32 },
    )
}

/// A stay duration as a JSON value: the number of days, and -1 where there
/// is none.
pub open spec fn stay_duration_value(stay: Option<u64>) -> JsonModel {
    match stay {
        Some(days) => whole_number(days as u128),
        None => JsonModel::Number(JsonNumber { negative: true, mantissa: 1, exponent: 0 }),
    }
}

/// A geo classification as a JSON value; null where there is none.
pub open spec fn geo_value(geo: Option<GeoType>) -> JsonModel {
    match geo {
        Some(g) => JsonModel::Text(g.code()),
        None => JsonModel::Null,
    }
}

/// An enriched flight as a document.
pub open spec fn encoded_flight(flight: EnrichedFlightView) -> JsonModel {
    JsonModel::Object(
        Map::<Seq<char>, JsonModel>::empty().insert(
            "dep_city"@,
            JsonModel::Text(flight.dep_city),
        ).insert("arr_city"@, JsonModel::Text(flight.arr_city)).insert(
            "distance"@,
            whole_number(flight.distance as u128),
        ).insert("marketing_airline"@, JsonModel::Text(flight.marketing_airline)).insert(
            "operating_airline"@,
            JsonModel::Text(flight.operating_airline),
        ).insert("cabin"@, JsonModel::Text(flight.cabin)),
    )
}

/// An enriched recommendation as a document.
pub open spec fn encoded_reco(reco: EnrichedRecoView) -> JsonModel {
    JsonModel::Object(
        Map::<Seq<char>, JsonModel>::empty().insert("price_EUR"@, euro_amount(reco.price_eur)).insert(
            "taxes_EUR"@,
            euro_amount(reco.taxes_eur),
        ).insert("fees_EUR"@, euro_amount(reco.fees_eur)).insert(
            "flights"@,
            JsonModel::Array(reco.flights.map_values(|f: EnrichedFlightView| encoded_flight(f))),
        ).insert("flown_distance"@, whole_number(reco.flown_distance)).insert(
            "main_marketing_airline"@,
            JsonModel::Text(reco.main_marketing_airline),
        ).insert("main_operating_airline"@, JsonModel::Text(reco.main_operating_airline)).insert(
            "main_cabin"@,
            JsonModel::Text(reco.main_cabin),
        ),
    )
}

/// A passenger entry as a document.
pub open spec fn encoded_passenger(passenger: Passenger) -> JsonModel {
    JsonModel::Object(
        Map::<Seq<char>, JsonModel>::empty().insert(
            "passenger_type"@,
            JsonModel::Text(passenger.passenger_type.code()),
        ).insert("passenger_nb"@, whole_number(passenger.passenger_nb as u128)),
    )
}

/// An enriched search as a document.
pub open spec fn encoded_search(search: EnrichedSearchView) -> JsonModel {
    JsonModel::Object(
        Map::<Seq<char>, JsonModel>::empty().insert(
            "recos"@,
            JsonModel::Array(search.recos.map_values(|r: EnrichedRecoView| encoded_reco(r))),
        ).insert("advance_purchase"@, whole_number(search.advance_purchase as u128)).insert(
            "stay_duration"@,
            stay_duration_value(search.stay_duration),
        ).insert("trip_type"@, JsonModel::Text(search.trip_type.code())).insert(
            "passengers"@,
            JsonModel::Array(search.passengers.map_values(|p: Passenger| encoded_passenger(p))),
        ).insert("origin_country"@, JsonModel::Text(search.origin_country)).insert(
            "destination_country"@,
            JsonModel::Text(search.destination_country),
        ).insert("geo"@, geo_value(search.geo)).insert(
            "OnD_distance"@,
            whole_number(search.ond_distance as u128),
        ),
    )
}

/// A text as a document.
fn text_of(text: &str) -> (value: JsonValue)
    ensures
        value.model() == JsonModel::Text(text@),
{
    JsonValue::Text(text.to_owned())
}

/// A whole number as a document.
fn whole_number_of(number: u128) -> (value: JsonValue)
    ensures
        value.model() == whole_number(number),
{
    JsonValue::Number(JsonNumber { negative: false, mantissa: number, exponent: 0 })
}

/// The amount in euros, rounded to two decimal places, of an amount in
/// millionths of a euro.
pub fn serialize_f64_2_decimals(micros: u128) -> (value: JsonValue)
    ensures
        value.model() == euro_amount(micros),
{
    JsonValue::Number(
        JsonNumber { negative: false, mantissa: round_to_cents(micros), exponent: -2 },
    )
}

/// The number of an optional count, and -1 where there is none.
pub fn serialize_u64_optional_none_as_minus_one(count: &Option<u64>) -> (value: JsonValue)
    ensures
        value.model() == stay_duration_value(*count),
{
    match count {
        Some(n) => whole_number_of(*n as u128),
        None => JsonValue::Number(JsonNumber { negative: true, mantissa: 1, exponent: 0 }),
    }
}

/// Writes an enriched flight as a document.
pub fn encode_flight(flight: &EnrichedFlight) -> (value: JsonValue)
    ensures
        value.model() == encoded_flight(flight@),
{
    let mut object = JsonObject::new();
    object.insert("dep_city".to_owned(), text_of(flight.dep_city.as_str()));
    object.insert("arr_city".to_owned(), text_of(flight.arr_city.as_str()));
    object.insert("distance".to_owned(), whole_number_of(flight.distance as u128));
    object.insert("marketing_airline".to_owned(), text_of(flight.marketing_airline.as_str()));
    object.insert("operating_airline".to_owned(), text_of(flight.operating_airline.as_str()));
    object.insert("cabin".to_owned(), text_of(flight.cabin.as_str()));
    JsonValue::Object(object)
}

/// Writes the flights of a recommendation as an array.
fn encode_flights(flights: &Vec<EnrichedFlight>) -> (value: JsonValue)
    ensures
        value.model() == JsonModel::Array(
            enriched_flight_views(flights@).map_values(|f: EnrichedFlightView| encoded_flight(f)),
        ),
{
    let mut items: Vec<JsonValue> = Vec::new();
    let mut i: usize = 0;
    while i < flights.len()
        invariant
            i <= flights.len(),
            items@.len() == i,
            forall|j: int| 0 <= j < i ==> (#[trigger] items@[j]).model() == encoded_flight(flights@[j]@),
        decreases flights.len() - i,
    {
        items.push(encode_flight(&flights[i]));
        i = i + 1;
    }
    let value = JsonValue::Array(items);
    proof {
        assert(value.model()->Array_0 =~= enriched_flight_views(flights@).map_values(
            |f: EnrichedFlightView| encoded_flight(f),
        ));
    }
    value
}

/// Writes an enriched recommendation as a document.
pub fn encode_reco(reco: &EnrichedReco) -> (value: JsonValue)
    ensures
        value.model() == encoded_reco(reco@),
{
    let mut object = JsonObject::new();
    object.insert("price_EUR".to_owned(), serialize_f64_2_decimals(reco.price_eur));
    object.insert("taxes_EUR".to_owned(), serialize_f64_2_decimals(reco.taxes_eur));
    object.insert("fees_EUR".to_owned(), serialize_f64_2_decimals(reco.fees_eur));
    object.insert("flights".to_owned(), encode_flights(&reco.flights));
    object.insert("flown_distance".to_owned(), whole_number_of(reco.flown_distance));
    object.insert(
        "main_marketing_airline".to_owned(),
        text_of(reco.main_marketing_airline.as_str()),
    );
    object.insert(
        "main_operating_airline".to_owned(),
        text_of(reco.main_operating_airline.as_str()),
    );
    object.insert("main_cabin".to_owned(), text_of(reco.main_cabin.as_str()));
    JsonValue::Object(object)
}

/// Writes the recommendations of a search as an array.
fn encode_recos(recos: &Vec<EnrichedReco>) -> (value: JsonValue)
    ensures
        value.model() == JsonModel::Array(
            enriched_reco_views(recos@).map_values(|r: EnrichedRecoView| encoded_reco(r)),
        ),
{
    let mut items: Vec<JsonValue> = Vec::new();
    let mut i: usize = 0;
    while i < recos.len()
        invariant
            i <= recos.len(),
            items@.len() == i,
            forall|j: int| 0 <= j < i ==> (#[trigger] items@[j]).model() == encoded_reco(recos@[j]@),
        decreases recos.len() - i,
    {
        items.push(encode_reco(&recos[i]));
        i = i + 1;
    }
    let value = JsonValue::Array(items);
    proof {
        assert(value.model()->Array_0 =~= enriched_reco_views(recos@).map_values(
            |r: EnrichedRecoView| encoded_reco(r),
        ));
    }
    value
}

/// Writes a passenger entry as a document.
pub fn encode_passenger(passenger: &Passenger) -> (value: JsonValue)
    ensures
        value.model() == encoded_passenger(*passenger),
{
    let mut object = JsonObject::new();
    object.insert("passenger_type".to_owned(), text_of(passenger.passenger_type.as_str()));
    object.insert("passenger_nb".to_owned(), whole_number_of(passenger.passenger_nb as u128));
    JsonValue::Object(object)
}

/// Writes the passengers of a search as an array.
fn encode_passengers(passengers: &Vec<Passenger>) -> (value: JsonValue)
    ensures
        value.model() == JsonModel::Array(
            passengers@.map_values(|p: Passenger| encoded_passenger(p)),
        ),
{
    let mut items: Vec<JsonValue> = Vec::new();
    let mut i: usize = 0;
    while i < passengers.len()
        invariant
            i <= passengers.len(),
            items@.len() == i,
            forall|j: int|
                0 <= j < i ==> (#[trigger] items@[j]).model() == encoded_passenger(passengers@[j]),
        decreases passengers.len() - i,
    {
        items.push(encode_passenger(&passengers[i]));
        i = i + 1;
    }
    let value = JsonValue::Array(items);
    proof {
        assert(value.model()->Array_0 =~= passengers@.map_values(
            |p: Passenger| encoded_passenger(p),
        ));
    }
    value
}

/// Writes an enriched search as a document.
pub fn encode_search(search: &EnrichedSearch) -> (value: JsonValue)
    ensures
        value.model() == encoded_search(search@),
{
    let mut object = JsonObject::new();
    object.insert("recos".to_owned(), encode_recos(&search.recos));
    object.insert("advance_purchase".to_owned(), whole_number_of(search.advance_purchase as u128));
    object.insert(
        "stay_duration".to_owned(),
        serialize_u64_optional_none_as_minus_one(&search.stay_duration),
    );
    object.insert("trip_type".to_owned(), text_of(search.trip_type.as_str()));
    object.insert("passengers".to_owned(), encode_passengers(&search.passengers));
    object.insert("origin_country".to_owned(), text_of(search.origin_country.as_str()));
    object.insert("destination_country".to_owned(), text_of(search.destination_country.as_str()));
    let geo = match &search.geo {
        Some(g) => text_of(g.as_str()),
        None => JsonValue::Null,
    };
    object.insert("geo".to_owned(), geo);
    object.insert("OnD_distance".to_owned(), whole_number_of(search.ond_distance as u128));
    JsonValue::Object(object)
}

} // verus!
