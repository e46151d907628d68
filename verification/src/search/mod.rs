//! A travel search and what enrichment derives from it, level by level:
//! flight, recommendation, search.

use vstd::prelude::*;

use self::date::Date;
use self::reco::{reco_views, Reco, RecoView};
use self::typedefs::CityCode;
use crate::currency_exchange::Currency;

pub mod date;
pub mod enriched_flight;
pub mod enriched_reco;
pub mod enriched_search;
pub mod flight;
pub mod reco;
pub mod typedefs;

verus! {

/// A travel search, as it comes in.
#[derive(Clone, Debug, PartialEq, Eq)]
pub struct Search {
    /// The currency of every amount in the recommendations.
    pub currency: Currency,
    pub search_date: Date,
    pub request_dep_date: Date,
    /// The requested return date; a one-way search has none.
    pub request_return_date: Option<Date>,
    /// The passengers, as `TYPE=count` pieces with commas between them.
    pub passengers_string: String,
    pub origin_city: CityCode,
    pub destination_city: CityCode,
    pub recos: Vec<Reco>,
}

/// What a [`Search`] holds, as contracts speak of it.
pub struct SearchView {
    pub currency: Currency,
    pub search_date: Date,
    pub request_dep_date: Date,
    pub request_return_date: Option<Date>,
    pub passengers_string: Seq<char>,
    pub origin_city: Seq<char>,
    pub destination_city: Seq<char>,
    pub recos: Seq<RecoView>,
}

impl View for Search {
    type V = SearchView;

    open spec fn view(&self) -> SearchView {
        SearchView {
            currency: self.currency,
            search_date: self.search_date,
            request_dep_date: self.request_dep_date,
            request_return_date: self.request_return_date,
            passengers_string: self.passengers_string@,
            origin_city: self.origin_city@,
            destination_city: self.destination_city@,
            recos: reco_views(self.recos@),
        }
    }
}

} // verus!
