//! The location index: what is known about each place, by location code,
//! and the distance between two places.

use vstd::hash_map::StringHashMap;
use vstd::prelude::*;

use self::great_circle::{great_circle_km, haversine_distance, on_globe, Coordinates};
use crate::decimal::{decimal_number, micros_of_number, parse_decimal};
use crate::json::JsonNumber;
use crate::text::{split, split_on, texts_of};

pub mod great_circle;

verus! {

/// What is known about one place: an airport, a city, a station.
#[derive(Clone, Debug)]
pub struct Location {
    /// Where the place lies, when the reference data says so.
    pub coordinates: Option<Coordinates>,
    pub country_code: String,
    /// The cities the place serves; the first one is the place's own city.
    pub city_code_list: Vec<String>,
}

/// Why the fields of a record of the reference data give no location.
#[derive(Clone, Copy, Debug, PartialEq, Eq, Structural)]
pub enum LocationFieldError {
    /// The latitude is neither empty nor a number of degrees.
    BadLatitude,
    /// The longitude is neither empty nor a number of degrees.
    BadLongitude,
    /// Latitude and longitude name no point on the globe.
    OffGlobe,
}

/// The angle in millionths of a degree that `text` writes in degrees, cut
/// off below a millionth: `Some(None)` for the empty text, which writes no
/// angle, and `None` for a text that is neither empty nor a number of
/// degrees that 32 bits hold in millionths.
pub open spec fn microdegrees_of_text(text: Seq<char>) -> Option<Option<i32>> {
    if text.len() == 0 {
        Some(None)
    } else {
        match decimal_number(text) {
            None => None,
            Some(number) => match micros_of_number(
                JsonNumber { negative: false, mantissa: number.mantissa, exponent: number.exponent },
            ) {
                Some(size) => if size <= i32::MAX {
                    Some(
                        Some(
                            if number.negative {
                                (-(size as int)) as i32
                            } else {
                                size as i32
                            },
                        ),
                    )
                } else {
                    None
                },
                None => None,
            },
        }
    }
}

/// Where a place lies by the latitude and longitude of its record: nowhere
/// known when either is not given.
pub open spec fn position_of_fields(latitude: Seq<char>, longitude: Seq<char>) -> Result<
    Option<(int, int)>,
    LocationFieldError,
> {
    match (microdegrees_of_text(latitude), microdegrees_of_text(longitude)) {
        (None, _) => Err(LocationFieldError::BadLatitude),
        (_, None) => Err(LocationFieldError::BadLongitude),
        (Some(Some(lat)), Some(Some(lon))) => if on_globe(lat as int, lon as int) {
            Ok(Some((lat as int, lon as int)))
        } else {
            Err(LocationFieldError::OffGlobe)
        },
        _ => Ok(None),
    }
}

/// Where `location` lies, as latitude and longitude.
pub open spec fn position_of_location(location: Location) -> Option<(int, int)> {
    match location.coordinates {
        Some(point) => Some((point.lat(), point.lon())),
        None => None,
    }
}

/// Reads an angle written in degrees.
fn parse_microdegrees(text: &str) -> (angle: Option<Option<i32>>)
    ensures
        angle == microdegrees_of_text(text@),
{
    if text.is_empty() {
        return Some(None);
    }
    match parse_decimal(text) {
        None => None,
        Some(number) => {
            let size = JsonNumber {
                negative: false,
                mantissa: number.mantissa,
                exponent: number.exponent,
            }.to_micros();
            match size {
                Some(size) => if size <= 0x7fff_ffff {
                    if number.negative {
                        Some(Some(-(size as i32)))
                    } else {
                        Some(Some(size as i32))
                    }
                } else {
                    None
                },
                None => None,
            }
        },
    }
}

impl Location {
    /// Makes a location of the fields of its record in the reference data:
    /// latitude and longitude in degrees, either of which may be empty, the
    /// country code, and the city codes with commas between them.
    pub fn from_fields(
        latitude: &str,
        longitude: &str,
        country_code: String,
        city_code_list: &str,
    ) -> (location: Result<Location, LocationFieldError>)
        ensures
            match location {
                Ok(l) => position_of_fields(latitude@, longitude@) == Ok::<
                    Option<(int, int)>,
                    LocationFieldError,
                >(position_of_location(l)) && l.country_code@ == country_code@ && texts_of(
                    l.city_code_list@,
                ) == split(city_code_list@, ','),
                Err(e) => position_of_fields(latitude@, longitude@) == Err::<
                    Option<(int, int)>,
                    LocationFieldError,
                >(e),
            },
    {
        let lat = match parse_microdegrees(latitude) {
            Some(lat) => lat,
            None => {
                return Err(LocationFieldError::BadLatitude);
            },
        };
        let lon = match parse_microdegrees(longitude) {
            Some(lon) => lon,
            None => {
                return Err(LocationFieldError::BadLongitude);
            },
        };
        let coordinates = match (lat, lon) {
            (Some(lat), Some(lon)) => match Coordinates::new(lat, lon) {
                Some(point) => Some(point),
                None => {
                    return Err(LocationFieldError::OffGlobe);
                },
            },
            _ => None,
        };
        Ok(Location { coordinates, country_code, city_code_list: split_on(city_code_list, ',') })
    }
}

/// The records of an index, by location code.
pub type LocationRecords = Map<Seq<char>, Location>;

/// The country of the place `code`; empty when the index does not know the
/// place.
pub open spec fn country_of(records: LocationRecords, code: Seq<char>) -> Seq<char> {
    if records.contains_key(code) {
        records[code].country_code@
    } else {
        Seq::empty()
    }
}

/// The first city of the place `code`; empty when the index does not know
/// the place, does not know where it lies, or knows no city for it.
pub open spec fn city_of(records: LocationRecords, code: Seq<char>) -> Seq<char> {
    if records.contains_key(code) && records[code].coordinates is Some
        && records[code].city_code_list@.len() > 0 {
        records[code].city_code_list@[0]@
    } else {
        Seq::empty()
    }
}

/// Where the place `code` lies, if the index knows the place and its
/// coordinates.
pub open spec fn position_of(records: LocationRecords, code: Seq<char>) -> Option<Coordinates> {
    if records.contains_key(code) {
        records[code].coordinates
    } else {
        None
    }
}

/// The great-circle distance in whole kilometres between the places `first`
/// and `second`; `None` when the position of either is not known.
pub open spec fn distance_between(
    records: LocationRecords,
    first: Seq<char>,
    second: Seq<char>,
) -> Option<u64> {
    match (position_of(records, first), position_of(records, second)) {
        (Some(p), Some(q)) => Some(great_circle_km(p.lat(), p.lon(), q.lat(), q.lon()) as u64),
        _ => None,
    }
}

/// A read-only index from location code to what is known about the place.
pub struct Locations {
    locations: StringHashMap<Location>,
}

impl View for Locations {
    type V = LocationRecords;

    closed spec fn view(&self) -> LocationRecords {
        self.locations@
    }
}

impl Locations {
    /// An index that knows no place.
    pub fn new() -> (index: Self)
        ensures
            index@ == Map::<Seq<char>, Location>::empty(),
    {
        Locations { locations: StringHashMap::new() }
    }

    /// Records `location` under `code`, in place of what was there.
    pub fn insert(&mut self, code: String, location: Location)
        ensures
            final(self)@ == old(self)@.insert(code@, location),
    {
        self.locations.insert(code, location);
    }

    /// The country of `city`, or the empty string for an unknown code.
    pub fn get_country_from_city(&self, city: &str) -> (country: String)
        ensures
            country@ == country_of(self@, city@),
    {
        match self.locations.get(city) {
            Some(loc) => loc.country_code.clone(),
            None => String::new(),
        }
    }

    /// The first city of `airport`, or the empty string for an unknown
    /// code, for one without coordinates, or for one without cities.
    pub fn get_city_from_location(&self, airport: &str) -> (city: String)
        ensures
            city@ == city_of(self@, airport@),
    {
        match self.locations.get(airport) {
            Some(loc) => if loc.coordinates.is_some() && loc.city_code_list.len() > 0 {
                loc.city_code_list[0].clone()
            } else {
                String::new()
            },
            None => String::new(),
        }
    }

    /// The great-circle distance in whole kilometres between two places, or
    /// `None` when either is unknown or has no coordinates.
    pub fn get_round_distance_between_locations(
        &self,
        first_location: &str,
        second_location: &str,
    ) -> (distance: Option<u64>)
        ensures
            distance == distance_between(self@, first_location@, second_location@),
    {
        let first = match self.locations.get(first_location) {
            Some(loc) => loc.coordinates,
            None => None,
        };
        let second = match self.locations.get(second_location) {
            Some(loc) => loc.coordinates,
            None => None,
        };
        match (first, second) {
            (Some(p), Some(q)) => Some(haversine_distance(&p, &q)),
            _ => None,
        }
    }
}

impl Default for Locations {
    fn default() -> (index: Self)
        ensures
            index@ == Map::<Seq<char>, Location>::empty(),
    {
        Locations::new()
    }
}

/// A place whose position is not known has no city and no distance to any
/// place, whatever else its record holds.
pub proof fn lemma_no_position_no_city_no_distance(
    records: LocationRecords,
    code: Seq<char>,
    other: Seq<char>,
)
    requires
        position_of(records, code) is None,
    ensures
        city_of(records, code) == Seq::<char>::empty(),
        distance_between(records, code, other) is None,
        distance_between(records, other, code) is None,
{
}

/// The distance between two places does not depend on their order, and is
/// known for one order exactly when it is known for the other.
pub proof fn lemma_distance_between_symmetric(
    records: LocationRecords,
    first: Seq<char>,
    second: Seq<char>,
)
    ensures
        distance_between(records, first, second) == distance_between(records, second, first),
{
    if let (Some(p), Some(q)) = (position_of(records, first), position_of(records, second)) {
        great_circle::lemma_distance_symmetric(p.lat(), p.lon(), q.lat(), q.lon());
    }
}

/// A place whose position is known is at distance zero from itself.
pub proof fn lemma_distance_between_same(records: LocationRecords, code: Seq<char>)
    requires
        position_of(records, code) is Some,
    ensures
        distance_between(records, code, code) == Some(0u64),
{
    let p = position_of(records, code)->Some_0;
    great_circle::lemma_distance_to_self(p.lat(), p.lon());
}

} // verus!
