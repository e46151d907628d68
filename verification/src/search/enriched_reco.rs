//! Enrichment of one recommendation: amounts in euros, enriched legs, flown
//! distance and the attributes of the main leg.

use vstd::prelude::*;

use super::enriched_flight::{
    enriched_flight,
    enriched_flight_views,
    EnrichFlightError,
    EnrichFlightErrorView,
    EnrichedFlight,
    EnrichedFlightView,
};
use super::flight::{flight_views, FlightView};
use super::reco::{Reco, RecoView};
use crate::currency_exchange::{euros_of, Currency, ExchangeRates};
use crate::fail_fast::{lemma_try_map_failure_persists, lemma_try_map_step, try_map};
use crate::neobase::{LocationRecords, Locations};

verus! {

/// A recommendation with its amounts in euros, its legs enriched, and what
/// is drawn from the legs together.
#[derive(Clone, Debug, PartialEq, Eq)]
pub struct EnrichedReco {
    /// Price in millionths of a euro.
    pub price_eur: u128,
    /// Taxes in millionths of a euro.
    pub taxes_eur: u128,
    /// Fees in millionths of a euro.
    pub fees_eur: u128,
    pub flights: Vec<EnrichedFlight>,
    /// Sum of the legs' distances, in kilometres.
    pub flown_distance: u128,
    /// Marketing airline of the main leg.
    pub main_marketing_airline: String,
    /// Operating airline of the main leg.
    pub main_operating_airline: String,
    /// Cabin of the main leg.
    pub main_cabin: String,
}

/// What an [`EnrichedReco`] holds, as contracts speak of it.
pub struct EnrichedRecoView {
    pub price_eur: u128,
    pub taxes_eur: u128,
    pub fees_eur: u128,
    pub flights: Seq<EnrichedFlightView>,
    pub flown_distance: u128,
    pub main_marketing_airline: Seq<char>,
    pub main_operating_airline: Seq<char>,
    pub main_cabin: Seq<char>,
}

impl View for EnrichedReco {
    type V = EnrichedRecoView;

    open spec fn view(&self) -> EnrichedRecoView {
        EnrichedRecoView {
            price_eur: self.price_eur,
            taxes_eur: self.taxes_eur,
            fees_eur: self.fees_eur,
            flights: enriched_flight_views(self.flights@),
            flown_distance: self.flown_distance,
            main_marketing_airline: self.main_marketing_airline@,
            main_operating_airline: self.main_operating_airline@,
            main_cabin: self.main_cabin@,
        }
    }
}

/// The views of a run of enriched recommendations, in order.
pub open spec fn enriched_reco_views(recos: Seq<EnrichedReco>) -> Seq<EnrichedRecoView> {
    recos.map_values(|r: EnrichedReco| r@)
}

/// Why a recommendation could not be enriched.
#[derive(Clone, Debug, PartialEq, Eq)]
pub enum EnrichRecoError {
    /// The rate table has no rate for the search's currency.
    RateUnavailable(Currency),
    /// One of the legs could not be enriched.
    EnrichFlight(EnrichFlightError),
    /// The recommendation has no leg.
    NoFlightInReco,
}

/// What an [`EnrichRecoError`] holds, as contracts speak of it.
pub enum EnrichRecoErrorView {
    RateUnavailable(Currency),
    EnrichFlight(EnrichFlightErrorView),
    NoFlightInReco,
}

impl View for EnrichRecoError {
    type V = EnrichRecoErrorView;

    open spec fn view(&self) -> EnrichRecoErrorView {
        match self {
            EnrichRecoError::RateUnavailable(currency) => EnrichRecoErrorView::RateUnavailable(
                *currency,
            ),
            EnrichRecoError::EnrichFlight(e) => EnrichRecoErrorView::EnrichFlight(e@),
            EnrichRecoError::NoFlightInReco => EnrichRecoErrorView::NoFlightInReco,
        }
    }
}

/// Enriching a leg against `records`, whatever the leg's position.
pub open spec fn flight_enricher(records: LocationRecords) -> spec_fn(int, FlightView) -> Result<
    EnrichedFlightView,
    EnrichFlightErrorView,
> {
    |i: int, flight: FlightView| enriched_flight(flight, records)
}

/// The sum of the legs' distances.
pub open spec fn total_distance(flights: Seq<EnrichedFlightView>) -> nat
    decreases flights.len(),
{
    if flights.len() == 0 {
        0
    } else {
        total_distance(flights.drop_last()) + flights.last().distance as nat
    }
}

/// The position of the main leg: the longest leg, and among several
/// longest ones the first.
pub open spec fn main_leg(flights: Seq<EnrichedFlightView>) -> int
    decreases flights.len(),
{
    if flights.len() <= 1 {
        0
    } else {
        let before = main_leg(flights.drop_last());
        if flights.last().distance > flights[before].distance {
            flights.len() - 1
        } else {
            before
        }
    }
}

/// What enriching `reco`, priced in `currency`, gives.
///
/// The three amounts are converted first, and a missing rate refuses the
/// recommendation. Then the legs are enriched in order, and the first leg
/// that fails refuses it. A recommendation without legs is refused. The
/// flown distance adds up the legs, and the main attributes are those of
/// the main leg.
pub open spec fn enriched_reco(
    reco: RecoView,
    records: LocationRecords,
    rates: Map<Currency, u64>,
    currency: Currency,
) -> Result<EnrichedRecoView, EnrichRecoErrorView> {
    match (
        euros_of(rates, reco.price, currency),
        euros_of(rates, reco.taxes, currency),
        euros_of(rates, reco.fees, currency),
    ) {
        (Ok(price_eur), Ok(taxes_eur), Ok(fees_eur)) => match try_map(
            reco.flights,
            flight_enricher(records),
        ) {
            Err(e) => Err(EnrichRecoErrorView::EnrichFlight(e)),
            Ok(flights) => if flights.len() == 0 {
                Err(EnrichRecoErrorView::NoFlightInReco)
            } else {
                let main = flights[main_leg(flights)];
                Ok(
                    EnrichedRecoView {
                        price_eur,
                        taxes_eur,
                        fees_eur,
                        flights,
                        flown_distance: total_distance(flights) as u128,
                        main_marketing_airline: main.marketing_airline,
                        main_operating_airline: main.operating_airline,
                        main_cabin: main.cabin,
                    },
                )
            },
        },
        _ => Err(EnrichRecoErrorView::RateUnavailable(currency)),
    }
}

/// The main leg is a leg, no leg is longer, and every leg before it is
/// shorter.
pub proof fn lemma_main_leg_is_first_longest(flights: Seq<EnrichedFlightView>)
    requires
        flights.len() > 0,
    ensures
        0 <= main_leg(flights) < flights.len(),
        forall|i: int|
            0 <= i < flights.len() ==> (#[trigger] flights[i]).distance
                <= flights[main_leg(flights)].distance,
        forall|i: int|
            0 <= i < main_leg(flights) ==> (#[trigger] flights[i]).distance
                < flights[main_leg(flights)].distance,
    decreases flights.len(),
{
    if flights.len() > 1 {
        let before = flights.drop_last();
        lemma_main_leg_is_first_longest(before);
        assert forall|i: int| 0 <= i < flights.len() implies (#[trigger] flights[i]).distance
            <= flights[main_leg(flights)].distance by {
            if i < before.len() {
                assert(before[i].distance <= before[main_leg(before)].distance);
            }
        }
        assert forall|i: int| 0 <= i < main_leg(flights) implies (#[trigger] flights[i]).distance
            < flights[main_leg(flights)].distance by {
            assert(before[i].distance <= before[main_leg(before)].distance);
            if i < main_leg(before) {
                assert(before[i].distance < before[main_leg(before)].distance);
            }
        }
    }
}

/// The flown distance of `n` legs is at most `n` times the longest distance
/// a leg can have.
pub proof fn lemma_total_distance_bound(flights: Seq<EnrichedFlightView>)
    ensures
        total_distance(flights) <= flights.len() * u64::MAX,
    decreases flights.len(),
{
    if flights.len() > 0 {
        lemma_total_distance_bound(flights.drop_last());
        assert((flights.len() - 1) * u64::MAX + u64::MAX == flights.len() * u64::MAX)
            by (nonlinear_arith);
    }
}

/// Adds up the distances of the legs.
fn sum_of_distances(flights: &Vec<EnrichedFlight>) -> (sum: u128)
    ensures
        sum == total_distance(enriched_flight_views(flights@)),
{
    let ghost views = enriched_flight_views(flights@);
    let mut sum: u128 = 0;
    let mut i: usize = 0;
    while i < flights.len()
        invariant
            i <= flights.len(),
            views == enriched_flight_views(flights@),
            sum == total_distance(views.take(i as int)),
        decreases flights.len() - i,
    {
        proof {
            assert(views.take(i + 1).drop_last() =~= views.take(i as int));
            lemma_total_distance_bound(views.take(i + 1));
            assert((i + 1) * u64::MAX <= 0x1_0000_0000_0000_0000 * 0xffff_ffff_ffff_ffff)
                by (nonlinear_arith)
                requires
                    0 <= i + 1 <= 0x1_0000_0000_0000_0000,
                    u64::MAX == 0xffff_ffff_ffff_ffff,
            ;
        }
        sum = sum + flights[i].distance as u128;
        i = i + 1;
    }
    proof {
        assert(views.take(i as int) =~= views);
    }
    sum
}

/// Finds the main leg.
fn longest_leg(flights: &Vec<EnrichedFlight>) -> (at: usize)
    requires
        flights.len() > 0,
    ensures
        at == main_leg(enriched_flight_views(flights@)),
        at < flights.len(),
{
    let ghost views = enriched_flight_views(flights@);
    let mut at: usize = 0;
    let mut i: usize = 1;
    proof {
        assert(main_leg(views.take(1)) == 0);
    }
    while i < flights.len()
        invariant
            1 <= i <= flights.len(),
            views == enriched_flight_views(flights@),
            at == main_leg(views.take(i as int)),
            at < i,
        decreases flights.len() - i,
    {
        proof {
            assert(views.take(i + 1).drop_last() =~= views.take(i as int));
        }
        if flights[i].distance > flights[at].distance {
            at = i;
        }
        i = i + 1;
    }
    proof {
        assert(views.take(i as int) =~= views);
    }
    at
}

impl EnrichedReco {
    /// Enriches one recommendation of a search priced in `currency`.
    pub fn enrich_from(
        reco: &Reco,
        neobase_locations: &Locations,
        exchange_rates: &ExchangeRates,
        currency: &Currency,
    ) -> (enriched: Result<EnrichedReco, EnrichRecoError>)
        ensures
            match enriched {
                Ok(e) => enriched_reco(reco@, neobase_locations@, exchange_rates@, *currency)
                    == Ok::<EnrichedRecoView, EnrichRecoErrorView>(e@),
                Err(e) => enriched_reco(reco@, neobase_locations@, exchange_rates@, *currency)
                    == Err::<EnrichedRecoView, EnrichRecoErrorView>(e@),
            },
    {
        let price_eur = match exchange_rates.to_euros(reco.price, currency) {
            Ok(euros) => euros,
            Err(e) => {
                return Err(EnrichRecoError::RateUnavailable(e.currency));
            },
        };
        let taxes_eur = match exchange_rates.to_euros(reco.taxes, currency) {
            Ok(euros) => euros,
            Err(e) => {
                return Err(EnrichRecoError::RateUnavailable(e.currency));
            },
        };
        let fees_eur = match exchange_rates.to_euros(reco.fees, currency) {
            Ok(euros) => euros,
            Err(e) => {
                return Err(EnrichRecoError::RateUnavailable(e.currency));
            },
        };
        let ghost legs = flight_views(reco.flights@);
        let ghost enrich = flight_enricher(neobase_locations@);
        let mut flights: Vec<EnrichedFlight> = Vec::new();
        let mut i: usize = 0;
        proof {
            assert(legs.take(0) =~= Seq::empty());
            assert(enriched_flight_views(flights@) =~= Seq::empty());
        }
        while i < reco.flights.len()
            invariant
                i <= reco.flights.len(),
                legs == flight_views(reco.flights@),
                enrich == flight_enricher(neobase_locations@),
                euros_of(exchange_rates@, reco.price, *currency) is Ok,
                euros_of(exchange_rates@, reco.taxes, *currency) is Ok,
                euros_of(exchange_rates@, reco.fees, *currency) is Ok,
                try_map(legs.take(i as int), enrich) == Ok::<
                    Seq<EnrichedFlightView>,
                    EnrichFlightErrorView,
                >(enriched_flight_views(flights@)),
            decreases reco.flights.len() - i,
        {
            proof {
                lemma_try_map_step(legs, enrich, i as int);
            }
            match EnrichedFlight::enrich_from(&reco.flights[i], neobase_locations) {
                Ok(flight) => {
                    let ghost before = enriched_flight_views(flights@);
                    flights.push(flight);
                    assert(enriched_flight_views(flights@) =~= before.push(flight@));
                },
                Err(e) => {
                    proof {
                        lemma_try_map_failure_persists(legs, enrich, i + 1);
                    }
                    return Err(EnrichRecoError::EnrichFlight(e));
                },
            }
            i = i + 1;
        }
        proof {
            assert(legs.take(i as int) =~= legs);
        }
        if flights.len() == 0 {
            return Err(EnrichRecoError::NoFlightInReco);
        }
        let flown_distance = sum_of_distances(&flights);
        let main = longest_leg(&flights);
        let main_marketing_airline = flights[main].marketing_airline.clone();
        let main_operating_airline = flights[main].operating_airline.clone();
        let main_cabin = flights[main].cabin.clone();
        Ok(
            EnrichedReco {
                price_eur,
                taxes_eur,
                fees_eur,
                flights,
                flown_distance,
                main_marketing_airline,
                main_operating_airline,
                main_cabin,
            },
        )
    }
}

} // verus!
