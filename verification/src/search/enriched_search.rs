//! Enrichment of a search: advance purchase, stay duration, trip type,
//! passengers, countries, geo classification, distance from origin to
//! destination, and the enriched recommendations.

use vstd::prelude::*;

use super::date::days_between;
use super::enriched_reco::{
    enriched_reco,
    enriched_reco_views,
    EnrichRecoError,
    EnrichRecoErrorView,
    EnrichedReco,
    EnrichedRecoView,
};
use super::reco::{reco_views, RecoView};
use super::typedefs::CountryCode;
use super::{Search, SearchView};
use crate::currency_exchange::{Currency, ExchangeRates};
use crate::fail_fast::{lemma_try_map_failure_persists, lemma_try_map_step, try_map};
use crate::neobase::{country_of, distance_between, LocationRecords, Locations};
use crate::text::{
    after_first,
    chars_of,
    decimal_u64,
    find_from,
    first_token,
    lemma_first_position,
    parse_decimal_u64,
    split,
    split_on,
    texts_of,
};

verus! {

/// Whether a search asks for a way back.
#[derive(Clone, Copy, Debug, PartialEq, Eq, Structural)]
pub enum TripType {
    OneWay,
    RoundTrip,
}

/// The kinds of passengers a search can count.
#[derive(Clone, Copy, Debug, PartialEq, Eq, Structural)]
pub enum PassengerType {
    Adult,
    Child,
}

/// Some passengers of one type.
#[derive(Clone, Copy, Debug, PartialEq, Eq, Structural)]
pub struct Passenger {
    pub passenger_type: PassengerType,
    pub passenger_nb: u64,
}

/// Whether a search stays within one country.
#[derive(Clone, Copy, Debug, PartialEq, Eq, Structural)]
pub enum GeoType {
    /// Origin and destination lie in one country.
    Domestic,
    International,
}

/// Why a `TYPE=count` piece could not be read. Each variant holds the piece.
#[derive(Clone, Debug, PartialEq, Eq)]
pub enum ParsePassengerError {
    /// There is no `=` in the piece, so no count.
    NoPassengerNumber(String),
    /// What stands before the first `=` is no passenger type.
    FailedToParsePassengerTypeString(String),
    /// What stands after the first `=` is no count.
    FailedToParsePassengerNumber(String),
}

/// What a [`ParsePassengerError`] holds, as contracts speak of it.
pub enum ParsePassengerErrorView {
    NoPassengerNumber(Seq<char>),
    FailedToParsePassengerTypeString(Seq<char>),
    FailedToParsePassengerNumber(Seq<char>),
}

impl View for ParsePassengerError {
    type V = ParsePassengerErrorView;

    open spec fn view(&self) -> ParsePassengerErrorView {
        match self {
            ParsePassengerError::NoPassengerNumber(piece) =>
                ParsePassengerErrorView::NoPassengerNumber(piece@),
            ParsePassengerError::FailedToParsePassengerTypeString(piece) =>
                ParsePassengerErrorView::FailedToParsePassengerTypeString(piece@),
            ParsePassengerError::FailedToParsePassengerNumber(piece) =>
                ParsePassengerErrorView::FailedToParsePassengerNumber(piece@),
        }
    }
}

impl TripType {
    /// How the trip type is written on the wire: `OW` or `RT`.
    pub open spec fn code(self) -> Seq<char> {
        match self {
            TripType::OneWay => seq!['O', 'W'],
            TripType::RoundTrip => seq!['R', 'T'],
        }
    }

    /// How the trip type is written on the wire.
    pub fn as_str(&self) -> (code: &'static str)
        ensures
            code@ == self.code(),
    {
        match self {
            TripType::OneWay => {
                proof {
                    reveal_strlit("OW");
                }
                "OW"
            },
            TripType::RoundTrip => {
                proof {
                    reveal_strlit("RT");
                }
                "RT"
            },
        }
    }
}

impl GeoType {
    /// How the classification is written on the wire: `D` or `I`.
    pub open spec fn code(self) -> Seq<char> {
        match self {
            GeoType::Domestic => seq!['D'],
            GeoType::International => seq!['I'],
        }
    }

    /// How the classification is written on the wire.
    pub fn as_str(&self) -> (code: &'static str)
        ensures
            code@ == self.code(),
    {
        match self {
            GeoType::Domestic => {
                proof {
                    reveal_strlit("D");
                }
                "D"
            },
            GeoType::International => {
                proof {
                    reveal_strlit("I");
                }
                "I"
            },
        }
    }
}

impl PassengerType {
    /// How the passenger type is written on the wire: `ADT` or `CH`.
    pub open spec fn code(self) -> Seq<char> {
        match self {
            PassengerType::Adult => seq!['A', 'D', 'T'],
            PassengerType::Child => seq!['C', 'H'],
        }
    }

    /// How the passenger type is written on the wire.
    pub fn as_str(&self) -> (code: &'static str)
        ensures
            code@ == self.code(),
    {
        match self {
            PassengerType::Adult => {
                proof {
                    reveal_strlit("ADT");
                }
                "ADT"
            },
            PassengerType::Child => {
                proof {
                    reveal_strlit("CH");
                }
                "CH"
            },
        }
    }
}

/// The passenger type that `token` writes, if it writes one.
pub open spec fn passenger_type_of(token: Seq<char>) -> Option<PassengerType> {
    if token == PassengerType::Adult.code() {
        Some(PassengerType::Adult)
    } else if token == PassengerType::Child.code() {
        Some(PassengerType::Child)
    } else {
        None
    }
}

/// What reading one `TYPE=count` piece gives.
///
/// The type is what stands before the first `=` and the count what stands
/// between the first `=` and the second, or the end. The type is looked at
/// first, then whether there is a count at all, then the count itself.
pub open spec fn parsed_passenger(piece: Seq<char>) -> Result<Passenger, ParsePassengerErrorView> {
    match passenger_type_of(first_token(piece, '=')) {
        None => Err(ParsePassengerErrorView::FailedToParsePassengerTypeString(piece)),
        Some(passenger_type) => match after_first(piece, '=') {
            None => Err(ParsePassengerErrorView::NoPassengerNumber(piece)),
            Some(rest) => match decimal_u64(first_token(rest, '=')) {
                None => Err(ParsePassengerErrorView::FailedToParsePassengerNumber(piece)),
                Some(passenger_nb) => Ok(Passenger { passenger_type, passenger_nb }),
            },
        },
    }
}

/// Reading a piece, whatever the piece's position.
pub open spec fn passenger_parser() -> spec_fn(int, Seq<char>) -> Result<
    Passenger,
    ParsePassengerErrorView,
> {
    |i: int, piece: Seq<char>| parsed_passenger(piece)
}

/// What reading a whole passengers string gives: its pieces between commas
/// are read in order, and the first piece that fails refuses the string.
pub open spec fn parsed_passengers(text: Seq<char>) -> Result<
    Seq<Passenger>,
    ParsePassengerErrorView,
> {
    try_map(split(text, ','), passenger_parser())
}

/// Reads one `TYPE=count` piece, such as `ADT=1`.
pub fn parse_one_passenger_string(passengers_string: &str) -> (passenger: Result<
    Passenger,
    ParsePassengerError,
>)
    ensures
        match passenger {
            Ok(p) => parsed_passenger(passengers_string@) == Ok::<
                Passenger,
                ParsePassengerErrorView,
            >(p),
            Err(e) => parsed_passenger(passengers_string@) == Err::<
                Passenger,
                ParsePassengerErrorView,
            >(e@),
        },
{
    let chars = chars_of(passengers_string);
    let ghost piece = passengers_string@;
    let equals = find_from(&chars, 0, '=');
    proof {
        assert(chars@.skip(0) =~= chars@);
        lemma_first_position(piece, '=');
    }
    let ghost type_token = first_token(piece, '=');
    let passenger_type = if equals == 3 && chars[0] == 'A' && chars[1] == 'D' && chars[2] == 'T' {
        proof {
            assert(type_token =~= PassengerType::Adult.code());
        }
        PassengerType::Adult
    } else if equals == 2 && chars[0] == 'C' && chars[1] == 'H' {
        proof {
            assert(type_token =~= PassengerType::Child.code());
        }
        PassengerType::Child
    } else {
        proof {
            if type_token == PassengerType::Adult.code() {
                assert(type_token.len() == 3);
                assert(type_token[0] == 'A' && type_token[1] == 'D' && type_token[2] == 'T');
            }
            if type_token == PassengerType::Child.code() {
                assert(type_token.len() == 2);
                assert(type_token[0] == 'C' && type_token[1] == 'H');
            }
        }
        return Err(
            ParsePassengerError::FailedToParsePassengerTypeString(passengers_string.to_owned()),
        );
    };
    if equals == chars.len() {
        return Err(ParsePassengerError::NoPassengerNumber(passengers_string.to_owned()));
    }
    let end = find_from(&chars, equals + 1, '=');
    proof {
        let rest = piece.skip(equals + 1);
        assert(first_token(rest, '=') =~= chars@.subrange(equals + 1, end as int));
    }
    match parse_decimal_u64(&chars, equals + 1, end) {
        Some(passenger_nb) => Ok(Passenger { passenger_type, passenger_nb }),
        None => Err(
            ParsePassengerError::FailedToParsePassengerNumber(passengers_string.to_owned()),
        ),
    }
}

/// Reads a whole passengers string, such as `ADT=1,CH=2`.
pub fn parse_passengers_string(passengers_string: &str) -> (passengers: Result<
    Vec<Passenger>,
    ParsePassengerError,
>)
    ensures
        match passengers {
            Ok(p) => parsed_passengers(passengers_string@) == Ok::<
                Seq<Passenger>,
                ParsePassengerErrorView,
            >(p@),
            Err(e) => parsed_passengers(passengers_string@) == Err::<
                Seq<Passenger>,
                ParsePassengerErrorView,
            >(e@),
        },
{
    let pieces = split_on(passengers_string, ',');
    let ghost all = split(passengers_string@, ',');
    let ghost read = passenger_parser();
    let mut passengers: Vec<Passenger> = Vec::new();
    let mut i: usize = 0;
    proof {
        assert(all.take(0) =~= Seq::empty());
    }
    while i < pieces.len()
        invariant
            i <= pieces.len(),
            all == split(passengers_string@, ','),
            all == texts_of(pieces@),
            read == passenger_parser(),
            try_map(all.take(i as int), read) == Ok::<Seq<Passenger>, ParsePassengerErrorView>(
                passengers@,
            ),
        decreases pieces.len() - i,
    {
        proof {
            lemma_try_map_step(all, read, i as int);
        }
        match parse_one_passenger_string(pieces[i].as_str()) {
            Ok(passenger) => {
                passengers.push(passenger);
            },
            Err(e) => {
                proof {
                    lemma_try_map_failure_persists(all, read, i + 1);
                }
                return Err(e);
            },
        }
        i = i + 1;
    }
    proof {
        assert(all.take(i as int) =~= all);
    }
    Ok(passengers)
}

/// A search with everything derived from it.
#[derive(Clone, Debug, PartialEq, Eq)]
pub struct EnrichedSearch {
    pub recos: Vec<EnrichedReco>,
    /// Whole days from the search date to the requested departure.
    pub advance_purchase: u64,
    /// Whole days from the requested departure to the requested return;
    /// a one-way search has none.
    pub stay_duration: Option<u64>,
    pub trip_type: TripType,
    pub passengers: Vec<Passenger>,
    pub origin_country: CountryCode,
    pub destination_country: CountryCode,
    pub geo: Option<GeoType>,
    /// Great-circle distance from origin to destination, in kilometres.
    pub ond_distance: u64,
}

/// What an [`EnrichedSearch`] holds, as contracts speak of it.
pub struct EnrichedSearchView {
    pub recos: Seq<EnrichedRecoView>,
    pub advance_purchase: u64,
    pub stay_duration: Option<u64>,
    pub trip_type: TripType,
    pub passengers: Seq<Passenger>,
    pub origin_country: Seq<char>,
    pub destination_country: Seq<char>,
    pub geo: Option<GeoType>,
    pub ond_distance: u64,
}

impl View for EnrichedSearch {
    type V = EnrichedSearchView;

    open spec fn view(&self) -> EnrichedSearchView {
        EnrichedSearchView {
            recos: enriched_reco_views(self.recos@),
            advance_purchase: self.advance_purchase,
            stay_duration: self.stay_duration,
            trip_type: self.trip_type,
            passengers: self.passengers@,
            origin_country: self.origin_country@,
            destination_country: self.destination_country@,
            geo: self.geo,
            ond_distance: self.ond_distance,
        }
    }
}

/// Why a search could not be enriched.
#[derive(Clone, Debug, PartialEq, Eq)]
pub enum EnrichSearchError {
    /// The recommendation at `index` could not be enriched.
    EnrichReco { index: usize, error: EnrichRecoError },
    /// The search was made after the requested departure.
    SearchDateAfterRequestDepDate,
    /// The requested return lies before the requested departure.
    RequestDepDateAfterRequestReturnDate,
    FailedToParsePassengersString(ParsePassengerError),
    /// The index does not know where origin or destination lies.
    MissingLocationInDistanceCalculation { origin_city: String, destination_city: String },
}

/// What an [`EnrichSearchError`] holds, as contracts speak of it.
pub enum EnrichSearchErrorView {
    EnrichReco { index: int, error: EnrichRecoErrorView },
    SearchDateAfterRequestDepDate,
    RequestDepDateAfterRequestReturnDate,
    FailedToParsePassengersString(ParsePassengerErrorView),
    MissingLocationInDistanceCalculation { origin_city: Seq<char>, destination_city: Seq<char> },
}

impl View for EnrichSearchError {
    type V = EnrichSearchErrorView;

    open spec fn view(&self) -> EnrichSearchErrorView {
        match self {
            EnrichSearchError::EnrichReco { index, error } => EnrichSearchErrorView::EnrichReco {
                index: *index as int,
                error: error@,
            },
            EnrichSearchError::SearchDateAfterRequestDepDate =>
                EnrichSearchErrorView::SearchDateAfterRequestDepDate,
            EnrichSearchError::RequestDepDateAfterRequestReturnDate =>
                EnrichSearchErrorView::RequestDepDateAfterRequestReturnDate,
            EnrichSearchError::FailedToParsePassengersString(e) =>
                EnrichSearchErrorView::FailedToParsePassengersString(e@),
            EnrichSearchError::MissingLocationInDistanceCalculation {
                origin_city,
                destination_city,
            } => EnrichSearchErrorView::MissingLocationInDistanceCalculation {
                origin_city: origin_city@,
                destination_city: destination_city@,
            },
        }
    }
}

/// One-way without a return date, round trip with one.
pub open spec fn trip_type_of(search: SearchView) -> TripType {
    match search.request_return_date {
        Some(_) => TripType::RoundTrip,
        None => TripType::OneWay,
    }
}

/// Domestic when the two countries are known and the same, international
/// otherwise.
pub open spec fn geo_of(origin_country: Seq<char>, destination_country: Seq<char>) -> GeoType {
    if origin_country == destination_country && origin_country.len() > 0 {
        GeoType::Domestic
    } else {
        GeoType::International
    }
}

/// Enriching the recommendation at a position of a search priced in
/// `currency`; a failure is marked with the position.
pub open spec fn reco_enricher(
    records: LocationRecords,
    rates: Map<Currency, u64>,
    currency: Currency,
) -> spec_fn(int, RecoView) -> Result<EnrichedRecoView, EnrichSearchErrorView> {
    |i: int, reco: RecoView|
        match enriched_reco(reco, records, rates, currency) {
            Ok(enriched) => Ok(enriched),
            Err(error) => Err(EnrichSearchErrorView::EnrichReco { index: i, error }),
        }
}

/// What enriching `search` gives.
///
/// The steps are taken in this order, and the first that fails refuses the
/// search: the advance purchase, which may not be negative; the stay
/// duration, which may not be negative either; the passengers; the distance
/// from origin to destination, which must be known; the recommendations in
/// order.
pub open spec fn enriched_search(
    search: SearchView,
    records: LocationRecords,
    rates: Map<Currency, u64>,
) -> Result<EnrichedSearchView, EnrichSearchErrorView> {
    let advance = days_between(search.search_date, search.request_dep_date);
    let stay = match search.request_return_date {
        Some(back) => Some(days_between(search.request_dep_date, back)),
        None => None,
    };
    let origin_country = country_of(records, search.origin_city);
    let destination_country = country_of(records, search.destination_city);
    if advance < 0 {
        Err(EnrichSearchErrorView::SearchDateAfterRequestDepDate)
    } else if stay matches Some(days) && days < 0 {
        Err(EnrichSearchErrorView::RequestDepDateAfterRequestReturnDate)
    } else {
        match parsed_passengers(search.passengers_string) {
            Err(e) => Err(EnrichSearchErrorView::FailedToParsePassengersString(e)),
            Ok(passengers) => match distance_between(
                records,
                search.origin_city,
                search.destination_city,
            ) {
                None => Err(
                    EnrichSearchErrorView::MissingLocationInDistanceCalculation {
                        origin_city: search.origin_city,
                        destination_city: search.destination_city,
                    },
                ),
                Some(ond_distance) => match try_map(
                    search.recos,
                    reco_enricher(records, rates, search.currency),
                ) {
                    Err(e) => Err(e),
                    Ok(recos) => Ok(
                        EnrichedSearchView {
                            recos,
                            advance_purchase: advance as u64,
                            stay_duration: match stay {
                                Some(days) => Some(days as u64),
                                None => None,
                            },
                            trip_type: trip_type_of(search),
                            passengers,
                            origin_country,
                            destination_country,
                            geo: Some(geo_of(origin_country, destination_country)),
                            ond_distance,
                        },
                    ),
                },
            },
        }
    }
}

impl EnrichedSearch {
    /// Enriches a search from the location index and the rate table.
    pub fn enrich_from(
        search: &Search,
        neobase_locations: &Locations,
        exchange_rates: &ExchangeRates,
    ) -> (enriched: Result<EnrichedSearch, EnrichSearchError>)
        ensures
            match enriched {
                Ok(e) => enriched_search(search@, neobase_locations@, exchange_rates@) == Ok::<
                    EnrichedSearchView,
                    EnrichSearchErrorView,
                >(e@),
                Err(e) => enriched_search(search@, neobase_locations@, exchange_rates@) == Err::<
                    EnrichedSearchView,
                    EnrichSearchErrorView,
                >(e@),
            },
    {
        let advance = search.search_date.days_until(&search.request_dep_date);
        if advance < 0 {
            return Err(EnrichSearchError::SearchDateAfterRequestDepDate);
        }
        let advance_purchase = advance as u64;
        let stay_duration = match &search.request_return_date {
            Some(back) => {
                let stay = search.request_dep_date.days_until(back);
                if stay < 0 {
                    return Err(EnrichSearchError::RequestDepDateAfterRequestReturnDate);
                }
                Some(stay as u64)
            },
            None => None,
        };
        let trip_type = match &search.request_return_date {
            Some(_) => TripType::RoundTrip,
            None => TripType::OneWay,
        };
        let passengers = match parse_passengers_string(search.passengers_string.as_str()) {
            Ok(passengers) => passengers,
            Err(e) => {
                return Err(EnrichSearchError::FailedToParsePassengersString(e));
            },
        };
        let origin_country = neobase_locations.get_country_from_city(search.origin_city.as_str());
        let destination_country = neobase_locations.get_country_from_city(
            search.destination_city.as_str(),
        );
        let geo = if origin_country == destination_country && !origin_country.as_str().is_empty() {
            Some(GeoType::Domestic)
        } else {
            Some(GeoType::International)
        };
        let ond_distance = match neobase_locations.get_round_distance_between_locations(
            search.origin_city.as_str(),
            search.destination_city.as_str(),
        ) {
            Some(distance) => distance,
            None => {
                return Err(
                    EnrichSearchError::MissingLocationInDistanceCalculation {
                        origin_city: search.origin_city.clone(),
                        destination_city: search.destination_city.clone(),
                    },
                );
            },
        };
        let ghost all = reco_views(search.recos@);
        let ghost enrich = reco_enricher(neobase_locations@, exchange_rates@, search.currency);
        let ghost outcome = enriched_search(search@, neobase_locations@, exchange_rates@);
        let mut recos: Vec<EnrichedReco> = Vec::new();
        let mut i: usize = 0;
        proof {
            assert(all.take(0) =~= Seq::empty());
            assert(enriched_reco_views(recos@) =~= Seq::empty());
        }
        while i < search.recos.len()
            invariant
                i <= search.recos.len(),
                all == reco_views(search.recos@),
                enrich == reco_enricher(neobase_locations@, exchange_rates@, search.currency),
                try_map(all.take(i as int), enrich) == Ok::<
                    Seq<EnrichedRecoView>,
                    EnrichSearchErrorView,
                >(enriched_reco_views(recos@)),
                // every step before the recommendations has passed, so a
                // failure among them is the failure of the search
                outcome == enriched_search(search@, neobase_locations@, exchange_rates@),
                outcome == match try_map(all, enrich) {
                    Err(e) => Err::<EnrichedSearchView, EnrichSearchErrorView>(e),
                    Ok(_) => outcome,
                },
            decreases search.recos.len() - i,
        {
            proof {
                lemma_try_map_step(all, enrich, i as int);
            }
            match EnrichedReco::enrich_from(
                &search.recos[i],
                neobase_locations,
                exchange_rates,
                &search.currency,
            ) {
                Ok(reco) => {
                    let ghost before = enriched_reco_views(recos@);
                    recos.push(reco);
                    assert(enriched_reco_views(recos@) =~= before.push(reco@));
                },
                Err(error) => {
                    proof {
                        lemma_try_map_failure_persists(all, enrich, i + 1);
                    }
                    return Err(EnrichSearchError::EnrichReco { index: i, error });
                },
            }
            i = i + 1;
        }
        proof {
            assert(all.take(i as int) =~= all);
        }
        Ok(
            EnrichedSearch {
                recos,
                advance_purchase,
                stay_duration,
                trip_type,
                passengers,
                origin_country,
                destination_country,
                geo,
                ond_distance,
            },
        )
    }
}

/// A search without a return date is one-way and has no stay duration; one
/// with a return date is a round trip that stays from the requested
/// departure to the requested return.
pub proof fn lemma_trip_type(search: SearchView, records: LocationRecords, rates: Map<Currency, u64>)
    requires
        enriched_search(search, records, rates) is Ok,
    ensures
        ({
            let enriched = enriched_search(search, records, rates)->Ok_0;
            match search.request_return_date {
                None => enriched.trip_type == TripType::OneWay && enriched.stay_duration is None,
                Some(back) => enriched.trip_type == TripType::RoundTrip && enriched.stay_duration
                    == Some(days_between(search.request_dep_date, back) as u64) && days_between(
                    search.request_dep_date,
                    back,
                ) >= 0,
            }
        }),
{
}

/// Origin and destination in one known country make a search domestic;
/// different countries, or an unknown one, make it international.
pub proof fn lemma_geo_classification(
    search: SearchView,
    records: LocationRecords,
    rates: Map<Currency, u64>,
)
    requires
        enriched_search(search, records, rates) is Ok,
    ensures
        ({
            let enriched = enriched_search(search, records, rates)->Ok_0;
            let origin = country_of(records, search.origin_city);
            let destination = country_of(records, search.destination_city);
            &&& enriched.origin_country == origin
            &&& enriched.destination_country == destination
            &&& origin == destination && origin.len() > 0 ==> enriched.geo == Some(
                GeoType::Domestic,
            )
            &&& origin != destination ==> enriched.geo == Some(GeoType::International)
            &&& origin.len() == 0 ==> enriched.geo == Some(GeoType::International)
        }),
{
}

} // verus!
