//! Names for the codes that searches are made of.

use vstd::prelude::*;

verus! {

/// Code of an airport or of any other place flights leave from.
pub type AirportCode = String;

/// Code of a city.
pub type CityCode = String;

/// Code of a country. The empty string stands for "not known".
pub type CountryCode = String;

/// The characters of an optional string.
pub open spec fn optional_text(text: Option<String>) -> Option<Seq<char>> {
    match text {
        Some(t) => Some(t@),
        None => None,
    }
}

} // verus!
