//! A search as a document: the members that are read from it, and the
//! members that enrichment writes.

use vstd::prelude::*;

pub mod decode;
pub mod encode;
pub mod ymd_date_format;
pub mod ymd_date_format_optional;

verus! {

/// The members of a search document that the library reads.
#[derive(Clone, Copy, Debug, PartialEq, Eq, Structural)]
pub enum SearchField {
    Currency,
    SearchDate,
    RequestDepDate,
    RequestReturnDate,
    PassengersString,
    OriginCity,
    DestinationCity,
    Recos,
    Price,
    Taxes,
    Fees,
    Flights,
    DepAirport,
    ArrAirport,
    MarketingAirline,
    OperatingAirline,
    Cabin,
}

/// Why a document is no search. Members are looked at in the order of
/// [`SearchField`], recommendations and flights in the order in which they
/// stand, and the first fault is the one reported.
#[derive(Clone, Copy, Debug, PartialEq, Eq, Structural)]
pub enum ParseSearchError {
    /// The document, a recommendation or a flight is no object.
    NotAnObject,
    /// A member that must be there is not.
    MissingField(SearchField),
    /// A member does not hold what it should.
    InvalidField(SearchField),
}

impl SearchField {
    /// The member's name in the document.
    pub open spec fn name(self) -> Seq<char> {
        match self {
            SearchField::Currency => "currency"@,
            SearchField::SearchDate => "search_date"@,
            SearchField::RequestDepDate => "request_dep_date"@,
            SearchField::RequestReturnDate => "request_return_date"@,
            SearchField::PassengersString => "passengers_string"@,
            SearchField::OriginCity => "origin_city"@,
            SearchField::DestinationCity => "destination_city"@,
            SearchField::Recos => "recos"@,
            SearchField::Price => "price"@,
            SearchField::Taxes => "taxes"@,
            SearchField::Fees => "fees"@,
            SearchField::Flights => "flights"@,
            SearchField::DepAirport => "dep_airport"@,
            SearchField::ArrAirport => "arr_airport"@,
            SearchField::MarketingAirline => "marketing_airline"@,
            SearchField::OperatingAirline => "operating_airline"@,
            SearchField::Cabin => "cabin"@,
        }
    }

    /// The member's name in the document.
    pub fn as_str(&self) -> (name: &'static str)
        ensures
            name@ == self.name(),
    {
        match self {
            SearchField::Currency => "currency",
            SearchField::SearchDate => "search_date",
            SearchField::RequestDepDate => "request_dep_date",
            SearchField::RequestReturnDate => "request_return_date",
            SearchField::PassengersString => "passengers_string",
            SearchField::OriginCity => "origin_city",
            SearchField::DestinationCity => "destination_city",
            SearchField::Recos => "recos",
            SearchField::Price => "price",
            SearchField::Taxes => "taxes",
            SearchField::Fees => "fees",
            SearchField::Flights => "flights",
            SearchField::DepAirport => "dep_airport",
            SearchField::ArrAirport => "arr_airport",
            SearchField::MarketingAirline => "marketing_airline",
            SearchField::OperatingAirline => "operating_airline",
            SearchField::Cabin => "cabin",
        }
    }
}

} // verus!
