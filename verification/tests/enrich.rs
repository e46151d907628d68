use enrichment::currency_exchange::{Currency, ExchangeRates};
use enrichment::neobase::great_circle::Coordinates;
use enrichment::neobase::{Location, Locations};
use enrichment::search::date::Date;
use enrichment::search::enriched_flight::{EnrichFlightError, EnrichedFlight};
use enrichment::search::enriched_reco::{EnrichRecoError, EnrichedReco};
use enrichment::search::enriched_search::{
    EnrichSearchError, EnrichedSearch, GeoType, ParsePassengerError, Passenger, PassengerType,
    TripType,
};
use enrichment::search::flight::Flight;
use enrichment::search::reco::Reco;
use enrichment::search::Search;

fn place(lat: i32, lng: i32, country: &str, cities: &[&str]) -> Location {
    Location {
        coordinates: Coordinates::new(lat, lng),
        country_code: country.to_string(),
        city_code_list: cities.iter().map(|c| c.to_string()).collect(),
    }
}

fn index() -> Locations {
    let mut index = Locations::new();
    index.insert("JFK".to_string(), place(40_639_751, -73_778_925, "US", &["NYC"]));
    index.insert("LHR".to_string(), place(51_477_500, -461_389, "GB", &["LON"]));
    index.insert("CDG".to_string(), place(49_012_779, 2_550_000, "FR", &["PAR"]));
    index.insert("NCE".to_string(), place(43_658_411, 7_215_872, "FR", &["NCE"]));
    index.insert("NYC".to_string(), place(40_714_270, -74_005_970, "US", &["NYC"]));
    index.insert("LON".to_string(), place(51_508_530, -125_740, "GB", &["LON"]));
    index.insert("PAR".to_string(), place(48_853_410, 2_348_800, "FR", &["PAR"]));
    // two places exactly as far from JFK as each other, mirrored on its meridian
    index.insert("EAS".to_string(), place(40_639_751, -63_778_925, "US", &["EAS"]));
    index.insert("WES".to_string(), place(40_639_751, -83_778_925, "US", &["WES"]));
    index.insert(
        "LOS".to_string(),
        Location {
            coordinates: None,
            country_code: "".to_string(),
            city_code_list: vec![],
        },
    );
    index
}

fn rates() -> ExchangeRates {
    let mut rates = ExchangeRates::new();
    assert!(rates.insert(Currency::USD, 1_100_000));
    rates
}

fn flight(dep: &str, arr: &str, marketing: &str, operating: Option<&str>, cabin: &str) -> Flight {
    Flight {
        dep_airport: dep.to_string(),
        arr_airport: arr.to_string(),
        marketing_airline: marketing.to_string(),
        operating_airline: operating.map(|o| o.to_string()),
        cabin: cabin.to_string(),
    }
}

fn reco(flights: Vec<Flight>) -> Reco {
    Reco { price: 100_000_000, taxes: 10_000_000, fees: 5_000_000, flights }
}

fn date(text: &str) -> Date {
    Date::parse(text).unwrap()
}

fn search(back: Option<&str>, recos: Vec<Reco>) -> Search {
    Search {
        currency: Currency::USD,
        search_date: date("2024-01-01"),
        request_dep_date: date("2024-02-01"),
        request_return_date: back.map(date),
        passengers_string: "ADT=1,CH=2".to_string(),
        origin_city: "NYC".to_string(),
        destination_city: "LON".to_string(),
        recos,
    }
}

#[test]
fn flight_gets_cities_distance_and_operating_airline() {
    let enriched =
        EnrichedFlight::enrich_from(&flight("JFK", "LHR", "BA", None, "Y"), &index()).unwrap();
    assert_eq!(
        enriched,
        EnrichedFlight {
            dep_city: "NYC".to_string(),
            arr_city: "LON".to_string(),
            distance: 5539,
            marketing_airline: "BA".to_string(),
            operating_airline: "BA".to_string(),
            cabin: "Y".to_string(),
        }
    );
}

#[test]
fn given_operating_airline_is_kept() {
    let enriched =
        EnrichedFlight::enrich_from(&flight("LHR", "JFK", "BA", Some("AA"), "C"), &index())
            .unwrap();
    assert_eq!(enriched.operating_airline, "AA");
    assert_eq!(enriched.marketing_airline, "BA");
    assert_eq!(enriched.cabin, "C");
    assert_eq!(enriched.dep_city, "LON");
    assert_eq!(enriched.arr_city, "NYC");
    assert_eq!(enriched.distance, 5539);
}

#[test]
fn flight_without_a_known_position_is_refused() {
    for (dep, arr) in [("JFK", "LOS"), ("LOS", "JFK"), ("JFK", "???"), ("???", "LOS")] {
        assert_eq!(
            EnrichedFlight::enrich_from(&flight(dep, arr, "BA", None, "Y"), &index()),
            Err(EnrichFlightError::MissingLocationInDistanceCalculation {
                dep_airport: dep.to_string(),
                arr_airport: arr.to_string(),
            })
        );
    }
}

#[test]
fn reco_is_converted_and_summed_up() {
    let enriched = EnrichedReco::enrich_from(
        &reco(vec![
            flight("NCE", "CDG", "AF", None, "M"),
            flight("CDG", "JFK", "DL", Some("AF"), "J"),
        ]),
        &index(),
        &rates(),
        &Currency::USD,
    )
    .unwrap();
    assert_eq!(enriched.price_eur, 90_909_090);
    assert_eq!(enriched.taxes_eur, 9_090_909);
    assert_eq!(enriched.fees_eur, 4_545_454);
    assert_eq!(enriched.flights.len(), 2);
    assert_eq!(enriched.flights[0].distance, 694);
    assert_eq!(enriched.flights[1].distance, 5833);
    assert_eq!(enriched.flown_distance, 694 + 5833);
    assert_eq!(enriched.main_marketing_airline, "DL");
    assert_eq!(enriched.main_operating_airline, "AF");
    assert_eq!(enriched.main_cabin, "J");
}

#[test]
fn euro_reco_needs_no_rate() {
    let enriched = EnrichedReco::enrich_from(
        &reco(vec![flight("JFK", "LHR", "BA", None, "Y")]),
        &index(),
        &ExchangeRates::new(),
        &Currency::EUR,
    )
    .unwrap();
    assert_eq!(enriched.price_eur, 100_000_000);
    assert_eq!(enriched.taxes_eur, 10_000_000);
    assert_eq!(enriched.fees_eur, 5_000_000);
}

#[test]
fn first_of_two_longest_legs_is_the_main_leg() {
    let enriched = EnrichedReco::enrich_from(
        &reco(vec![
            flight("NCE", "CDG", "AF", None, "M"),
            flight("JFK", "EAS", "E1", None, "F"),
            flight("JFK", "WES", "W2", Some("W3"), "Y"),
            flight("CDG", "NCE", "AF", None, "M"),
        ]),
        &index(),
        &rates(),
        &Currency::USD,
    )
    .unwrap();
    assert_eq!(enriched.flights[1].distance, enriched.flights[2].distance);
    assert!(enriched.flights[1].distance > enriched.flights[0].distance);
    assert_eq!(enriched.main_marketing_airline, "E1");
    assert_eq!(enriched.main_operating_airline, "E1");
    assert_eq!(enriched.main_cabin, "F");
}

#[test]
fn reco_without_flights_is_refused() {
    assert_eq!(
        EnrichedReco::enrich_from(&reco(vec![]), &index(), &rates(), &Currency::USD),
        Err(EnrichRecoError::NoFlightInReco)
    );
}

#[test]
fn reco_without_a_rate_is_refused_first() {
    assert_eq!(
        EnrichedReco::enrich_from(
            &reco(vec![flight("JFK", "???", "BA", None, "Y")]),
            &index(),
            &rates(),
            &Currency::GBP
        ),
        Err(EnrichRecoError::RateUnavailable(Currency::GBP))
    );
    assert_eq!(
        EnrichedReco::enrich_from(&reco(vec![]), &index(), &rates(), &Currency::GBP),
        Err(EnrichRecoError::RateUnavailable(Currency::GBP))
    );
}

#[test]
fn first_failing_flight_refuses_the_reco() {
    assert_eq!(
        EnrichedReco::enrich_from(
            &reco(vec![
                flight("JFK", "LHR", "BA", None, "Y"),
                flight("LHR", "???", "BA", None, "Y"),
                flight("LOS", "JFK", "BA", None, "Y"),
            ]),
            &index(),
            &rates(),
            &Currency::USD
        ),
        Err(EnrichRecoError::EnrichFlight(
            EnrichFlightError::MissingLocationInDistanceCalculation {
                dep_airport: "LHR".to_string(),
                arr_airport: "???".to_string(),
            }
        ))
    );
}

#[test]
fn one_way_search() {
    let enriched = EnrichedSearch::enrich_from(
        &search(None, vec![reco(vec![flight("JFK", "LHR", "BA", None, "Y")])]),
        &index(),
        &rates(),
    )
    .unwrap();
    assert_eq!(enriched.advance_purchase, 31);
    assert_eq!(enriched.stay_duration, None);
    assert_eq!(enriched.trip_type, TripType::OneWay);
    assert_eq!(
        enriched.passengers,
        vec![
            Passenger { passenger_type: PassengerType::Adult, passenger_nb: 1 },
            Passenger { passenger_type: PassengerType::Child, passenger_nb: 2 },
        ]
    );
    assert_eq!(enriched.origin_country, "US");
    assert_eq!(enriched.destination_country, "GB");
    assert_eq!(enriched.geo, Some(GeoType::International));
    assert_eq!(enriched.ond_distance, 5570);
    assert_eq!(enriched.recos.len(), 1);
    assert_eq!(enriched.recos[0].price_eur, 90_909_090);
    assert_eq!(enriched.recos[0].flown_distance, 5539);
}

#[test]
fn round_trip_search() {
    let enriched =
        EnrichedSearch::enrich_from(&search(Some("2024-02-15"), vec![]), &index(), &rates())
            .unwrap();
    assert_eq!(enriched.trip_type, TripType::RoundTrip);
    assert_eq!(enriched.stay_duration, Some(14));
    assert_eq!(enriched.advance_purchase, 31);
    assert!(enriched.recos.is_empty());
}

#[test]
fn same_day_return_and_same_day_departure() {
    let mut s = search(Some("2024-02-01"), vec![]);
    s.search_date = date("2024-02-01");
    let enriched = EnrichedSearch::enrich_from(&s, &index(), &rates()).unwrap();
    assert_eq!(enriched.advance_purchase, 0);
    assert_eq!(enriched.stay_duration, Some(0));
    assert_eq!(enriched.trip_type, TripType::RoundTrip);
}

#[test]
fn leap_day_counts() {
    let mut s = search(Some("2024-03-01"), vec![]);
    s.search_date = date("2023-02-01");
    let enriched = EnrichedSearch::enrich_from(&s, &index(), &rates()).unwrap();
    assert_eq!(enriched.advance_purchase, 365);
    assert_eq!(enriched.stay_duration, Some(29));
}

#[test]
fn domestic_and_international() {
    let mut s = search(None, vec![]);
    s.origin_city = "PAR".to_string();
    s.destination_city = "NCE".to_string();
    let enriched = EnrichedSearch::enrich_from(&s, &index(), &rates()).unwrap();
    assert_eq!(enriched.origin_country, "FR");
    assert_eq!(enriched.destination_country, "FR");
    assert_eq!(enriched.geo, Some(GeoType::Domestic));

    s.destination_city = "LON".to_string();
    let enriched = EnrichedSearch::enrich_from(&s, &index(), &rates()).unwrap();
    assert_eq!(enriched.geo, Some(GeoType::International));
}

#[test]
fn two_unknown_countries_are_not_one_country() {
    let mut index = index();
    index.insert("AAA".to_string(), place(1_000_000, 1_000_000, "", &["AAA"]));
    index.insert("BBB".to_string(), place(2_000_000, 2_000_000, "", &["BBB"]));
    let mut s = search(None, vec![]);
    s.origin_city = "AAA".to_string();
    s.destination_city = "BBB".to_string();
    let enriched = EnrichedSearch::enrich_from(&s, &index, &rates()).unwrap();
    assert_eq!(enriched.origin_country, "");
    assert_eq!(enriched.destination_country, "");
    assert_eq!(enriched.geo, Some(GeoType::International));
}

#[test]
fn search_after_departure_is_refused() {
    let mut s = search(None, vec![]);
    s.search_date = date("2024-02-02");
    assert_eq!(
        EnrichedSearch::enrich_from(&s, &index(), &rates()),
        Err(EnrichSearchError::SearchDateAfterRequestDepDate)
    );
}

#[test]
fn return_before_departure_is_refused() {
    assert_eq!(
        EnrichedSearch::enrich_from(&search(Some("2024-01-31"), vec![]), &index(), &rates()),
        Err(EnrichSearchError::RequestDepDateAfterRequestReturnDate)
    );
}

#[test]
fn bad_passengers_refuse_the_search() {
    let mut s = search(None, vec![]);
    s.passengers_string = "ADT=1,INF=1".to_string();
    assert_eq!(
        EnrichedSearch::enrich_from(&s, &index(), &rates()),
        Err(EnrichSearchError::FailedToParsePassengersString(
            ParsePassengerError::FailedToParsePassengerTypeString("INF=1".to_string())
        ))
    );
}

#[test]
fn unknown_origin_or_destination_refuses_the_search() {
    let mut s = search(None, vec![]);
    s.destination_city = "LOS".to_string();
    assert_eq!(
        EnrichedSearch::enrich_from(&s, &index(), &rates()),
        Err(EnrichSearchError::MissingLocationInDistanceCalculation {
            origin_city: "NYC".to_string(),
            destination_city: "LOS".to_string(),
        })
    );
}

#[test]
fn first_failing_reco_refuses_the_search_with_its_position() {
    let good = reco(vec![flight("JFK", "LHR", "BA", None, "Y")]);
    assert_eq!(
        EnrichedSearch::enrich_from(
            &search(
                None,
                vec![
                    good.clone(),
                    good.clone(),
                    reco(vec![]),
                    reco(vec![flight("JFK", "???", "BA", None, "Y")]),
                ]
            ),
            &index(),
            &rates()
        ),
        Err(EnrichSearchError::EnrichReco { index: 2, error: EnrichRecoError::NoFlightInReco })
    );
}

#[test]
fn earlier_steps_fail_first() {
    // wrong dates, bad passengers, unknown destination and an empty reco together
    let mut s = search(Some("2024-01-15"), vec![reco(vec![])]);
    s.passengers_string = "x".to_string();
    s.destination_city = "???".to_string();
    s.search_date = date("2025-01-01");
    assert_eq!(
        EnrichedSearch::enrich_from(&s, &index(), &rates()),
        Err(EnrichSearchError::SearchDateAfterRequestDepDate)
    );
    s.search_date = date("2024-01-01");
    assert_eq!(
        EnrichedSearch::enrich_from(&s, &index(), &rates()),
        Err(EnrichSearchError::RequestDepDateAfterRequestReturnDate)
    );
    s.request_return_date = None;
    assert_eq!(
        EnrichedSearch::enrich_from(&s, &index(), &rates()),
        Err(EnrichSearchError::FailedToParsePassengersString(
            ParsePassengerError::FailedToParsePassengerTypeString("x".to_string())
        ))
    );
    s.passengers_string = "ADT=2".to_string();
    assert_eq!(
        EnrichedSearch::enrich_from(&s, &index(), &rates()),
        Err(EnrichSearchError::MissingLocationInDistanceCalculation {
            origin_city: "NYC".to_string(),
            destination_city: "???".to_string(),
        })
    );
    s.destination_city = "LON".to_string();
    assert_eq!(
        EnrichedSearch::enrich_from(&s, &index(), &rates()),
        Err(EnrichSearchError::EnrichReco { index: 0, error: EnrichRecoError::NoFlightInReco })
    );
}

#[test]
fn dates_are_read_by_year_month_and_day() {
    assert_eq!(date("0001-01-01").days_from_ce, 1);
    assert_eq!(date("1970-01-01").days_from_ce, 719_163);
    assert_eq!(date("2024-01-01").days_until(&date("2024-02-01")), 31);
    assert_eq!(date("2024-02-01").days_until(&date("2024-01-01")), -31);
    assert_eq!(Date::parse("2024-02-30"), None);
    assert_eq!(Date::parse("2024-13-01"), None);
    assert_eq!(Date::parse("01/02/2024"), None);
    assert_eq!(Date::parse("2024-02-01T00:00:00"), None);
    assert_eq!(Date::parse(""), None);
    assert_ne!(Date::parse("2024-02-01"), Date::parse("2024-02-02"));
}

#[test]
fn wire_codes_of_trip_and_geo() {
    assert_eq!(TripType::OneWay.as_str(), "OW");
    assert_eq!(TripType::RoundTrip.as_str(), "RT");
    assert_eq!(GeoType::Domestic.as_str(), "D");
    assert_eq!(GeoType::International.as_str(), "I");
}

#[test]
fn dates_are_written_by_year_month_and_day() {
    assert_eq!(date("2024-02-01").to_ymd(), Some("2024-02-01".to_string()));
    assert_eq!(date("0001-01-01").to_ymd(), Some("0001-01-01".to_string()));
    assert_eq!(Date { days_from_ce: 719_163 }.to_ymd(), Some("1970-01-01".to_string()));
    assert_eq!(Date { days_from_ce: i32::MAX }.to_ymd(), None);
    assert_eq!(Date { days_from_ce: i32::MIN }.to_ymd(), None);
    for text in ["2023-12-31", "2024-02-29", "1999-09-03", "2100-01-01"] {
        assert_eq!(date(text).to_ymd(), Some(text.to_string()));
    }
}
