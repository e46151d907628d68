use enrichment::neobase::great_circle::{haversine_distance, Coordinates, MAX_DISTANCE_KM};
use enrichment::neobase::{Location, Locations};

fn place(lat: f64, lng: f64, country: &str, cities: &[&str]) -> Location {
    Location {
        coordinates: Coordinates::new(
            (lat * 1e6).round() as i32,
            (lng * 1e6).round() as i32,
        ),
        country_code: country.to_string(),
        city_code_list: cities.iter().map(|c| c.to_string()).collect(),
    }
}

fn index() -> Locations {
    let mut index = Locations::new();
    index.insert("JFK".to_string(), place(40.639751, -73.778925, "US", &["NYC"]));
    index.insert("LHR".to_string(), place(51.4775, -0.461389, "GB", &["LON"]));
    index.insert("NYC".to_string(), place(40.71427, -74.00597, "US", &["NYC"]));
    index.insert("LON".to_string(), place(51.50853, -0.12574, "GB", &["LON"]));
    index.insert("EAP".to_string(), place(47.59, 7.529167, "FR", &["BSL", "MLH"]));
    index.insert(
        "ZZZ".to_string(),
        Location {
            coordinates: None,
            country_code: "ZZ".to_string(),
            city_code_list: vec![],
        },
    );
    // a place with cities of which the index does not know where it lies
    index.insert(
        "NOC".to_string(),
        Location {
            coordinates: None,
            country_code: "FR".to_string(),
            city_code_list: vec!["PAR".to_string(), "ORY".to_string()],
        },
    );
    // a place of which the index knows where it lies, but no city
    index.insert("NCY".to_string(), place(45.9, 6.1, "FR", &[]));
    index
}

/// The great-circle distance as floating point gives it.
fn reference_km(lat1: f64, lon1: f64, lat2: f64, lon2: f64) -> u64 {
    let d_lat = (lat2 - lat1).to_radians();
    let d_lon = (lon2 - lon1).to_radians();
    let a = (d_lat / 2.0).sin() * (d_lat / 2.0).sin()
        + lat1.to_radians().cos()
            * lat2.to_radians().cos()
            * (d_lon / 2.0).sin()
            * (d_lon / 2.0).sin();
    let c = 2.0 * a.sqrt().atan2((1.0 - a).sqrt());
    (6371.0 * c) as u64
}

fn km(lat1: i32, lon1: i32, lat2: i32, lon2: i32) -> u64 {
    haversine_distance(
        &Coordinates::new(lat1, lon1).unwrap(),
        &Coordinates::new(lat2, lon2).unwrap(),
    )
}

#[test]
fn country_of_a_known_and_of_an_unknown_code() {
    let index = index();
    assert_eq!(index.get_country_from_city("NYC"), "US");
    assert_eq!(index.get_country_from_city("LON"), "GB");
    assert_eq!(index.get_country_from_city("???"), "");
    assert_eq!(index.get_country_from_city(""), "");
}

#[test]
fn city_is_the_first_of_the_list() {
    let index = index();
    assert_eq!(index.get_city_from_location("JFK"), "NYC");
    assert_eq!(index.get_city_from_location("EAP"), "BSL");
    assert_eq!(index.get_city_from_location("ZZZ"), "");
    assert_eq!(index.get_city_from_location("???"), "");
}

#[test]
fn no_city_without_coordinates() {
    let index = index();
    assert_eq!(index.get_city_from_location("NOC"), "");
    assert_eq!(index.get_country_from_city("NOC"), "FR");
    assert_eq!(index.get_round_distance_between_locations("NOC", "JFK"), None);
    assert_eq!(index.get_round_distance_between_locations("JFK", "NOC"), None);
    assert_eq!(index.get_round_distance_between_locations("NOC", "NOC"), None);
}

#[test]
fn no_city_without_a_city_list() {
    let index = index();
    assert_eq!(index.get_city_from_location("NCY"), "");
    assert_eq!(index.get_country_from_city("NCY"), "FR");
    assert!(index.get_round_distance_between_locations("NCY", "JFK").is_some());
}

#[test]
fn distance_between_two_airports() {
    let index = index();
    assert_eq!(
        index.get_round_distance_between_locations("JFK", "LHR"),
        Some(5539)
    );
    assert_eq!(
        index.get_round_distance_between_locations("JFK", "LHR"),
        Some(reference_km(40.639751, -73.778925, 51.4775, -0.461389))
    );
}

#[test]
fn distance_does_not_depend_on_the_order() {
    let index = index();
    for a in ["JFK", "LHR", "NYC", "LON", "EAP", "ZZZ", "NOC", "NCY", "???"] {
        for b in ["JFK", "LHR", "NYC", "LON", "EAP", "ZZZ", "NOC", "NCY", "???"] {
            assert_eq!(
                index.get_round_distance_between_locations(a, b),
                index.get_round_distance_between_locations(b, a)
            );
        }
    }
}

#[test]
fn distance_to_the_same_place_is_zero() {
    let index = index();
    for a in ["JFK", "LHR", "NYC", "LON", "EAP"] {
        assert_eq!(index.get_round_distance_between_locations(a, a), Some(0));
    }
}

#[test]
fn distance_is_unavailable_without_coordinates() {
    let index = index();
    assert_eq!(index.get_round_distance_between_locations("JFK", "ZZZ"), None);
    assert_eq!(index.get_round_distance_between_locations("ZZZ", "JFK"), None);
    assert_eq!(index.get_round_distance_between_locations("ZZZ", "ZZZ"), None);
    assert_eq!(index.get_round_distance_between_locations("JFK", "???"), None);
    assert_eq!(index.get_round_distance_between_locations("???", "???"), None);
}

#[test]
fn a_later_record_replaces_an_earlier_one() {
    let mut index = index();
    index.insert("JFK".to_string(), place(0.0, 0.0, "XX", &["QQQ"]));
    assert_eq!(index.get_country_from_city("JFK"), "XX");
    assert_eq!(index.get_city_from_location("JFK"), "QQQ");
}

#[test]
fn coordinates_off_the_globe_are_refused() {
    assert!(Coordinates::new(90_000_000, 180_000_000).is_some());
    assert!(Coordinates::new(-90_000_000, -180_000_000).is_some());
    assert!(Coordinates::new(90_000_001, 0).is_none());
    assert!(Coordinates::new(-90_000_001, 0).is_none());
    assert!(Coordinates::new(0, 180_000_001).is_none());
    assert!(Coordinates::new(0, -180_000_001).is_none());
    let p = Coordinates::new(12_345_678, -98_765_432).unwrap();
    assert_eq!(p.latitude(), 12_345_678);
    assert_eq!(p.longitude(), -98_765_432);
}

#[test]
fn extreme_distances() {
    // half way round the equator, pole to pole, across the date line
    assert_eq!(km(0, 0, 0, 180_000_000), 20015);
    assert_eq!(km(90_000_000, 0, -90_000_000, 0), 20015);
    assert_eq!(km(0, -180_000_000, 0, 180_000_000), 0);
    assert_eq!(km(0, 179_000_000, 0, -179_000_000), 222);
    assert_eq!(km(0, 0, 0, 90_000_000), 10007);
    assert!(km(-90_000_000, -180_000_000, 90_000_000, 180_000_000) <= MAX_DISTANCE_KM);
}

#[test]
fn fixed_point_agrees_with_floating_point() {
    let points: [(f64, f64); 12] = [
        (40.639751, -73.778925),
        (51.4775, -0.461389),
        (49.012779, 2.55),
        (35.552258, 139.779694),
        (-33.946111, 151.177222),
        (-34.822222, -58.535833),
        (64.13, -21.940556),
        (1.350189, 103.994433),
        (-77.85, 166.666667),
        (43.658411, 7.215872),
        (43.66, 7.22),
        (0.000001, 0.000001),
    ];
    for (lat1, lon1) in points {
        for (lat2, lon2) in points {
            let fixed = km(
                (lat1 * 1e6).round() as i32,
                (lon1 * 1e6).round() as i32,
                (lat2 * 1e6).round() as i32,
                (lon2 * 1e6).round() as i32,
            );
            assert_eq!(fixed, reference_km(lat1, lon1, lat2, lon2));
        }
    }
}
