//! Error classification tests, and the call tails that apply it.

use borsa_alphavantage::connector::{complete_history, complete_quote, complete_search};
use borsa_alphavantage::error::{looks_like_not_found, normalize_error, BorsaError};
use borsa_alphavantage::money::{Currency, IsoCurrency, Money};
use borsa_alphavantage::normalize::RawQuote;

#[test]
fn quote_not_found_is_mapped() {
    let e = BorsaError::connector(
        "borsa-alphavantage",
        "Invalid API call. Unknown symbol".to_string(),
    );
    let err = normalize_error(e, "quote for ZZZZ-UNKNOWN");
    assert!(matches!(err, BorsaError::NotFound { .. }));
}

#[test]
fn quote_error_preserves_connector_name() {
    let e = BorsaError::Other(
        "We have detected your API key as *** and our standard API rate limit is 25 requests per day. Please subscribe to any of the premium plans at https://www.alphavantage.co/premium/ to instantly remove all daily rate limits.".to_string()
    );
    let err = normalize_error(e, "quote for AAPL");
    match err {
        BorsaError::Connector { connector, msg } => {
            assert_eq!(connector, "borsa-alphavantage");
            assert!(msg.contains("API rate limit"));
        }
        _ => panic!("Expected Connector error, got: {err:?}"),
    }
}

#[test]
fn search_not_found_is_mapped() {
    let e = BorsaError::connector("borsa-alphavantage", "No matches found".to_string());
    let err = normalize_error(e, "search");
    assert!(matches!(err, BorsaError::NotFound { .. }));
}

#[test]
fn no_data_any_casing_becomes_not_found() {
    for msg in ["No data for symbol", "NO DATA", "no data", "nO dAtA here"] {
        let e = BorsaError::Other(msg.to_string());
        let err = normalize_error(e, "history for X");
        match err {
            BorsaError::NotFound { what } => assert_eq!(what, "history for X"),
            other => panic!("expected NotFound for {msg:?}, got {other:?}"),
        }
    }
}

#[test]
fn unrelated_text_is_wrapped_with_this_connector() {
    let e = BorsaError::Other("server exploded".to_string());
    match normalize_error(e, "quote for AAPL") {
        BorsaError::Connector { connector, msg } => {
            assert_eq!(connector, "borsa-alphavantage");
            assert_eq!(msg, "server exploded");
        }
        other => panic!("expected Connector, got {other:?}"),
    }
}

#[test]
fn connector_errors_keep_their_origin_when_unrecognized() {
    let e = BorsaError::connector("someone-else", "quota exceeded".to_string());
    match normalize_error(e, "search") {
        BorsaError::Connector { connector, msg } => {
            assert_eq!(connector, "someone-else");
            assert_eq!(msg, "quota exceeded");
        }
        other => panic!("expected Connector, got {other:?}"),
    }
}

#[test]
fn other_kinds_pass_through_unchanged() {
    let e = BorsaError::InvalidArg("no data at all".to_string());
    match normalize_error(e, "x") {
        BorsaError::InvalidArg(m) => assert_eq!(m, "no data at all"),
        other => panic!("expected InvalidArg, got {other:?}"),
    }
    let e = BorsaError::Unsupported("no data".to_string());
    assert!(matches!(normalize_error(e, "x"), BorsaError::Unsupported(_)));
    let e = BorsaError::Data("no data".to_string());
    assert!(matches!(normalize_error(e, "x"), BorsaError::Data(_)));
}

#[test]
fn vocabulary_matches_are_case_insensitive_substrings() {
    assert!(looks_like_not_found("INVALID API CALL: check it"));
    assert!(looks_like_not_found("symbol Not Found anywhere"));
    assert!(looks_like_not_found("Unknown Symbol: XYZ"));
    assert!(looks_like_not_found("there were No Matches"));
    assert!(!looks_like_not_found("rate limit exceeded"));
    assert!(!looks_like_not_found(""));
}

#[test]
fn quote_call_tail_classifies_transport_failures() {
    let fetched: Result<RawQuote, BorsaError> = Err(BorsaError::connector(
        "borsa-alphavantage",
        "No data for this symbol".to_string(),
    ));
    match complete_quote(fetched, "GHOST").unwrap_err() {
        BorsaError::NotFound { what } => assert_eq!(what, "quote for GHOST"),
        other => panic!("expected NotFound, got {other:?}"),
    }
}

#[test]
fn quote_call_tail_maps_a_fetched_record() {
    let usd = |s: &str| Money::from_canonical_str(s, Currency::Iso(IsoCurrency::USD)).unwrap();
    let fetched = Ok(RawQuote {
        symbol: "AAPL".to_string(),
        price: usd("123"),
        previous_close: usd("120"),
    });
    let q = complete_quote(fetched, "AAPL").unwrap();
    assert_eq!(q.symbol.as_str(), "AAPL");
    assert_eq!(q.price.unwrap().canonical_str(), "123");
}

#[test]
fn history_call_tail_names_the_resource() {
    let fetched = Err(BorsaError::Other("not found".to_string()));
    match complete_history(fetched, "AAPL").unwrap_err() {
        BorsaError::NotFound { what } => assert_eq!(what, "history for AAPL"),
        other => panic!("expected NotFound, got {other:?}"),
    }
}

#[test]
fn search_call_tail_wraps_results() {
    let resp = complete_search(Ok(vec![])).unwrap();
    assert!(resp.results.is_empty());
    let err = complete_search(Err(BorsaError::connector(
        "borsa-alphavantage",
        "No matches found".to_string(),
    )))
    .unwrap_err();
    assert!(matches!(err, BorsaError::NotFound { .. }));
}
