//! Recommendations as they come in.

use vstd::prelude::*;

use super::flight::{flight_views, Flight, FlightView};

verus! {

/// One priced recommendation, as it comes in. The amounts are in millionths
/// of the search's currency.
#[derive(Clone, Debug, PartialEq, Eq)]
pub struct Reco {
    pub price: u64,
    pub taxes: u64,
    pub fees: u64,
    pub flights: Vec<Flight>,
}

/// What a [`Reco`] holds, as contracts speak of it.
pub struct RecoView {
    pub price: u64,
    pub taxes: u64,
    pub fees: u64,
    pub flights: Seq<FlightView>,
}

impl View for Reco {
    type V = RecoView;

    open spec fn view(&self) -> RecoView {
        RecoView {
            price: self.price,
            taxes: self.taxes,
            fees: self.fees,
            flights: flight_views(self.flights@),
        }
    }
}

/// The views of a run of recommendations, in order.
pub open spec fn reco_views(recos: Seq<Reco>) -> Seq<RecoView> {
    recos.map_values(|r: Reco| r@)
}

} // verus!
