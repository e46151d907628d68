//! Enrichment of travel-search documents.
//!
//! A search document names an origin and a destination, dates, passengers
//! and priced recommendations, each made of flight legs. [`enrich_json`]
//! reads the search from the document, derives geography, great-circle
//! distances, prices in euros, the trip type and the passengers from it, and
//! lays what it derived over the document, so that nothing that came in is
//! lost.
//!
//! Every function has a contract over a mathematical model of its
//! arguments, and Verus proves each of them but those of the two functions
//! in [`search::date`] that call chrono to read and to write a date: their
//! contracts are believed. Nothing is computed in floating point: amounts and
//! rates are counted in millionths ([`currency_exchange`]), angles in
//! millionths of a degree and distances in whole kilometres
//! ([`neobase::great_circle`]), and a JSON number is a sign, digits and a
//! power of ten ([`json::JsonNumber`]).

use vstd::prelude::*;

use crate::currency_exchange::{Currency, ExchangeRates};
use crate::document::decode::{decode_search, decoded_search};
use crate::document::encode::{encode_search, encoded_search};
use crate::document::ParseSearchError;
use crate::json::{JsonModel, JsonValue};
use crate::merge::{lemma_merge_keeps_base_members, lemma_merge_members, merge_jsons, merged};
use crate::neobase::{LocationRecords, Locations};
use crate::search::enriched_search::{
    enriched_search,
    EnrichSearchError,
    EnrichSearchErrorView,
    EnrichedSearch,
};

pub mod currency_exchange;
pub mod decimal;
pub mod document;
pub mod fail_fast;
pub mod json;
pub mod merge;
pub mod neobase;
pub mod reference_rates;
pub mod search;
pub mod text;

verus! {

/// Why a document could not be enriched.
#[derive(Clone, Debug, PartialEq, Eq)]
pub enum EnrichJsonError {
    /// The document is no search.
    FailedToParseSearch(ParseSearchError),
    /// The search it holds could not be enriched.
    FailedToEnrichSearch(EnrichSearchError),
}

/// What an [`EnrichJsonError`] holds, as contracts speak of it.
pub enum EnrichJsonErrorView {
    FailedToParseSearch(ParseSearchError),
    FailedToEnrichSearch(EnrichSearchErrorView),
}

impl View for EnrichJsonError {
    type V = EnrichJsonErrorView;

    open spec fn view(&self) -> EnrichJsonErrorView {
        match self {
            EnrichJsonError::FailedToParseSearch(e) => EnrichJsonErrorView::FailedToParseSearch(*e),
            EnrichJsonError::FailedToEnrichSearch(e) => EnrichJsonErrorView::FailedToEnrichSearch(
                e@,
            ),
        }
    }
}

/// What enriching a document gives: the search it holds is read and
/// enriched, and the enriched search, written as a document, is laid over
/// the document that came in.
pub open spec fn enriched_json(
    input: JsonModel,
    records: LocationRecords,
    rates: Map<Currency, u64>,
) -> Result<JsonModel, EnrichJsonErrorView> {
    match decoded_search(input) {
        Err(e) => Err(EnrichJsonErrorView::FailedToParseSearch(e)),
        Ok(search) => match enriched_search(search, records, rates) {
            Err(e) => Err(EnrichJsonErrorView::FailedToEnrichSearch(e)),
            Ok(enriched) => Ok(merged(input, encoded_search(enriched))),
        },
    }
}

/// Enriches a search document from the location index and the rate table.
///
/// The result is the document that came in with the derived members added.
/// A derived member takes the place of a member of the same name, and every
/// other member stays as it was.
pub fn enrich_json(
    input_json: JsonValue,
    neobase_locations: &Locations,
    exchange_rates: &ExchangeRates,
) -> (output: Result<JsonValue, EnrichJsonError>)
    ensures
        match output {
            Ok(document) => enriched_json(
                input_json.model(),
                neobase_locations@,
                exchange_rates@,
            ) == Ok::<JsonModel, EnrichJsonErrorView>(document.model()),
            Err(e) => enriched_json(input_json.model(), neobase_locations@, exchange_rates@)
                == Err::<JsonModel, EnrichJsonErrorView>(e@),
        },
{
    let search = match decode_search(&input_json) {
        Ok(search) => search,
        Err(e) => {
            return Err(EnrichJsonError::FailedToParseSearch(e));
        },
    };
    let enriched_search = match EnrichedSearch::enrich_from(
        &search,
        neobase_locations,
        exchange_rates,
    ) {
        Ok(enriched) => enriched,
        Err(e) => {
            return Err(EnrichJsonError::FailedToEnrichSearch(e));
        },
    };
    let enriched_search_json = encode_search(&enriched_search);
    let mut out_json = input_json;
    merge_jsons(&mut out_json, enriched_search_json);
    Ok(out_json)
}

/// Enrichment loses nothing: the result has every member of the document
/// that came in, and a member that the enriched search does not write is in
/// the result as it came in.
pub proof fn lemma_enrichment_keeps_input(
    input: JsonModel,
    records: LocationRecords,
    rates: Map<Currency, u64>,
    name: Seq<char>,
)
    requires
        enriched_json(input, records, rates) is Ok,
        input is Object,
        input->Object_0.contains_key(name),
    ensures
        ({
            let output = enriched_json(input, records, rates)->Ok_0;
            let written = encoded_search(
                enriched_search(decoded_search(input)->Ok_0, records, rates)->Ok_0,
            );
            &&& output is Object
            &&& output->Object_0.contains_key(name)
            &&& !written->Object_0.contains_key(name) ==> output->Object_0[name]
                == input->Object_0[name]
        }),
{
    let written = encoded_search(
        enriched_search(decoded_search(input)->Ok_0, records, rates)->Ok_0,
    );
    lemma_merge_members(input->Object_0, written->Object_0);
    if !written->Object_0.contains_key(name) {
        lemma_merge_keeps_base_members(input->Object_0, written->Object_0, name);
    }
}

} // verus!
