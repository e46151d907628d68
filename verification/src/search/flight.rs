//! Flight legs as they come in.

use vstd::prelude::*;

use super::typedefs::{optional_text, AirportCode};

verus! {

/// One leg of a recommendation, as it comes in.
#[derive(Clone, Debug, PartialEq, Eq)]
pub struct Flight {
    pub dep_airport: AirportCode,
    pub arr_airport: AirportCode,
    pub marketing_airline: String,
    pub operating_airline: Option<String>,
    pub cabin: String,
}

/// What a [`Flight`] holds, as contracts speak of it.
pub struct FlightView {
    pub dep_airport: Seq<char>,
    pub arr_airport: Seq<char>,
    pub marketing_airline: Seq<char>,
    pub operating_airline: Option<Seq<char>>,
    pub cabin: Seq<char>,
}

impl View for Flight {
    type V = FlightView;

    open spec fn view(&self) -> FlightView {
        FlightView {
            dep_airport: self.dep_airport@,
            arr_airport: self.arr_airport@,
            marketing_airline: self.marketing_airline@,
            operating_airline: optional_text(self.operating_airline),
            cabin: self.cabin@,
        }
    }
}

/// The views of a run of flights, in order.
pub open spec fn flight_views(flights: Seq<Flight>) -> Seq<FlightView> {
    flights.map_values(|f: Flight| f@)
}

} // verus!
