//! The per-call tail of each connector method: what happens to the
//! transport's outcome once it is back on this side of the network.
//!
//! The transport fetches and hands over either the mapped canonical value
//! or an error; these functions finish the call — wrapping results the way
//! the connector interface wants them and classifying every failure — so
//! that the transport itself decides nothing.

use vstd::prelude::*;

use crate::domain::{Earnings, HistoryResponse, Quote, SearchResponse, SearchResult};
use crate::error::{normalize_error, spec_normalized, BorsaError};
use crate::normalize::{map_quote, RawQuote};

verus! {

/// Finishes a quote call for the instrument named `requested`: maps the
/// fetched record (an empty symbol meaning `NotFound`), and classifies a
/// transport failure against the vocabulary.
pub fn complete_quote(fetched: Result<RawQuote, BorsaError>, requested: &str) -> (r: Result<
    Quote,
    BorsaError,
>)
    ensures
        fetched matches Ok(raw) ==> {
            &&& raw.symbol@.len() == 0 ==> (r matches Err(e) && e matches BorsaError::NotFound {
                what,
            } && what@ == "quote for "@ + requested@)
            &&& raw.symbol@.len() > 0 ==> (r matches Ok(q) && q.symbol@ == raw.symbol@
                && q.shortname is None && q.price == Some(raw.price) && q.previous_close == Some(
                raw.previous_close,
            ) && q.exchange is None && q.market_state is None)
        },
        fetched matches Err(e0) ==> (r matches Err(e1) && spec_normalized(
            e0,
            "quote for "@ + requested@,
            e1,
        )),
{
    let mut what = String::new();
    what.append("quote for ");
    what.append(requested);
    match fetched {
        Ok(raw) => match map_quote(&raw, requested) {
            Ok(q) => Ok(q),
            Err(e) => Err(normalize_error(e, what.as_str())),
        },
        Err(e) => Err(normalize_error(e, what.as_str())),
    }
}

/// Finishes a history call for `symbol`: the normalized response passes
/// through untouched, a transport failure is classified.
pub fn complete_history(fetched: Result<HistoryResponse, BorsaError>, symbol: &str) -> (r: Result<
    HistoryResponse,
    BorsaError,
>)
    ensures
        fetched matches Ok(h) ==> (r matches Ok(h2) && h2 == h),
        fetched matches Err(e0) ==> (r matches Err(e1) && spec_normalized(
            e0,
            "history for "@ + symbol@,
            e1,
        )),
{
    match fetched {
        Ok(h) => Ok(h),
        Err(e) => {
            let mut what = String::new();
            what.append("history for ");
            what.append(symbol);
            Err(normalize_error(e, what.as_str()))
        },
    }
}

/// Finishes a search call: the mapped results are wrapped into the
/// response, a transport failure is classified.
pub fn complete_search(fetched: Result<Vec<SearchResult>, BorsaError>) -> (r: Result<
    SearchResponse,
    BorsaError,
>)
    ensures
        fetched matches Ok(v) ==> (r matches Ok(resp) && resp.results == v),
        fetched matches Err(e0) ==> (r matches Err(e1) && spec_normalized(e0, "search"@, e1)),
{
    match fetched {
        Ok(results) => Ok(SearchResponse { results }),
        Err(e) => Err(normalize_error(e, "search")),
    }
}

/// Finishes an earnings call for `symbol`: the mapped earnings pass
/// through untouched, a transport failure is classified.
pub fn complete_earnings(fetched: Result<Earnings, BorsaError>, symbol: &str) -> (r: Result<
    Earnings,
    BorsaError,
>)
    ensures
        fetched matches Ok(e) ==> (r matches Ok(e2) && e2 == e),
        fetched matches Err(e0) ==> (r matches Err(e1) && spec_normalized(
            e0,
            "earnings for "@ + symbol@,
            e1,
        )),
{
    match fetched {
        Ok(e) => Ok(e),
        Err(e) => {
            let mut what = String::new();
            what.append("earnings for ");
            what.append(symbol);
            Err(normalize_error(e, what.as_str()))
        },
    }
}

} // verus!
