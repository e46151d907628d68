//! Enrichment of one flight leg.

use vstd::prelude::*;

use super::flight::{Flight, FlightView};
use super::typedefs::CityCode;
use crate::neobase::{city_of, distance_between, LocationRecords, Locations};

verus! {

/// A leg with what the location index adds to it.
#[derive(Clone, Debug, PartialEq, Eq)]
pub struct EnrichedFlight {
    pub dep_city: CityCode,
    pub arr_city: CityCode,
    /// Great-circle distance flown, in whole kilometres.
    pub distance: u64,
    pub marketing_airline: String,
    /// The operating airline; the marketing airline where none was given.
    pub operating_airline: String,
    pub cabin: String,
}

/// What an [`EnrichedFlight`] holds, as contracts speak of it.
pub struct EnrichedFlightView {
    pub dep_city: Seq<char>,
    pub arr_city: Seq<char>,
    pub distance: u64,
    pub marketing_airline: Seq<char>,
    pub operating_airline: Seq<char>,
    pub cabin: Seq<char>,
}

impl View for EnrichedFlight {
    type V = EnrichedFlightView;

    open spec fn view(&self) -> EnrichedFlightView {
        EnrichedFlightView {
            dep_city: self.dep_city@,
            arr_city: self.arr_city@,
            distance: self.distance,
            marketing_airline: self.marketing_airline@,
            operating_airline: self.operating_airline@,
            cabin: self.cabin@,
        }
    }
}

/// The views of a run of enriched flights, in order.
pub open spec fn enriched_flight_views(flights: Seq<EnrichedFlight>) -> Seq<EnrichedFlightView> {
    flights.map_values(|f: EnrichedFlight| f@)
}

/// Why a leg could not be enriched.
#[derive(Clone, Debug, PartialEq, Eq)]
pub enum EnrichFlightError {
    /// The index does not know where one of the two airports lies.
    MissingLocationInDistanceCalculation { dep_airport: String, arr_airport: String },
}

/// What an [`EnrichFlightError`] holds, as contracts speak of it.
pub enum EnrichFlightErrorView {
    MissingLocationInDistanceCalculation { dep_airport: Seq<char>, arr_airport: Seq<char> },
}

impl View for EnrichFlightError {
    type V = EnrichFlightErrorView;

    open spec fn view(&self) -> EnrichFlightErrorView {
        match self {
            EnrichFlightError::MissingLocationInDistanceCalculation { dep_airport, arr_airport } =>
                EnrichFlightErrorView::MissingLocationInDistanceCalculation {
                    dep_airport: dep_airport@,
                    arr_airport: arr_airport@,
                },
        }
    }
}

/// What enriching `flight` against `records` gives.
///
/// The cities are those of the two airports (empty where the index knows
/// none). The distance is the great-circle distance between the airports,
/// and the leg is refused when that is not known. The operating airline
/// falls back on the marketing airline.
pub open spec fn enriched_flight(flight: FlightView, records: LocationRecords) -> Result<
    EnrichedFlightView,
    EnrichFlightErrorView,
> {
    match distance_between(records, flight.dep_airport, flight.arr_airport) {
        Some(distance) => Ok(
            EnrichedFlightView {
                dep_city: city_of(records, flight.dep_airport),
                arr_city: city_of(records, flight.arr_airport),
                distance,
                marketing_airline: flight.marketing_airline,
                operating_airline: match flight.operating_airline {
                    Some(airline) => airline,
                    None => flight.marketing_airline,
                },
                cabin: flight.cabin,
            },
        ),
        None => Err(
            EnrichFlightErrorView::MissingLocationInDistanceCalculation {
                dep_airport: flight.dep_airport,
                arr_airport: flight.arr_airport,
            },
        ),
    }
}

impl EnrichedFlight {
    /// Enriches one leg from the location index.
    pub fn enrich_from(flight: &Flight, neobase_locations: &Locations) -> (enriched: Result<
        EnrichedFlight,
        EnrichFlightError,
    >)
        ensures
            match enriched {
                Ok(e) => enriched_flight(flight@, neobase_locations@) == Ok::<
                    EnrichedFlightView,
                    EnrichFlightErrorView,
                >(e@),
                Err(e) => enriched_flight(flight@, neobase_locations@) == Err::<
                    EnrichedFlightView,
                    EnrichFlightErrorView,
                >(e@),
            },
    {
        let dep_city = neobase_locations.get_city_from_location(flight.dep_airport.as_str());
        let arr_city = neobase_locations.get_city_from_location(flight.arr_airport.as_str());
        let distance = match neobase_locations.get_round_distance_between_locations(
            flight.dep_airport.as_str(),
            flight.arr_airport.as_str(),
        ) {
            Some(distance) => distance,
            None => {
                return Err(
                    EnrichFlightError::MissingLocationInDistanceCalculation {
                        dep_airport: flight.dep_airport.clone(),
                        arr_airport: flight.arr_airport.clone(),
                    },
                );
            },
        };
        let operating_airline = match &flight.operating_airline {
            Some(airline) => airline.clone(),
            None => flight.marketing_airline.clone(),
        };
        Ok(
            EnrichedFlight {
                dep_city,
                arr_city,
                distance,
                marketing_airline: flight.marketing_airline.clone(),
                operating_airline,
                cabin: flight.cabin.clone(),
            },
        )
    }
}

} // verus!
