//! Pair-symbol parsing and the end-to-end request plan for pairs.

use borsa_alphavantage::domain::{AssetKind, HistoryRequest, Interval};
use borsa_alphavantage::error::BorsaError;
use borsa_alphavantage::pair::parse_forex_pair;
use borsa_alphavantage::translate::{plan_history, ForexFunction, HistoryPlan};

#[test]
fn forex_symbol_without_slash() {
    let req = HistoryRequest::new(Interval::D1, false);
    let result = plan_history("EURUSD", AssetKind::Forex, &req);
    assert!(result.is_err());
    let error = result.unwrap_err();
    assert!(error
        .message()
        .contains("Forex pair for AlphaVantage must be in 'BASE/QUOTE' format"));
}

#[test]
fn forex_invalid_symbol_format() {
    let req = HistoryRequest::new(Interval::D1, false);
    let result = plan_history("EUR", AssetKind::Forex, &req);
    assert!(result.is_err());
    let error = result.unwrap_err();
    assert!(error
        .message()
        .contains("Forex pair for AlphaVantage must be in 'BASE/QUOTE' format"));
}

#[test]
fn forex_crypto_pairs() {
    let req = HistoryRequest::new(Interval::D1, false);
    let result = plan_history("BTC/USDT", AssetKind::Forex, &req);
    match result.unwrap() {
        HistoryPlan::Forex { base, quote, .. } => {
            assert_eq!(base, "BTC");
            assert_eq!(quote, "USDT");
        }
        other => panic!("expected a pair plan, got {other:?}"),
    }
}

#[test]
fn forex_crypto_pairs_without_slash() {
    let req = HistoryRequest::new(Interval::D1, false);
    let result = plan_history("ETHUSDT", AssetKind::Forex, &req);
    assert!(result.is_err());
    let error = result.unwrap_err();
    assert!(error
        .message()
        .contains("Forex pair for AlphaVantage must be in 'BASE/QUOTE' format"));
}

#[test]
fn forex_dash_delimiter() {
    let req = HistoryRequest::new(Interval::D1, false);
    match plan_history("EUR-USD", AssetKind::Forex, &req).unwrap() {
        HistoryPlan::Forex { base, quote, .. } => {
            assert_eq!(base, "EUR");
            assert_eq!(quote, "USD");
        }
        other => panic!("expected a pair plan, got {other:?}"),
    }
}

#[test]
fn forex_symbol_normalization() {
    let req = HistoryRequest::new(Interval::D1, false);
    assert!(plan_history("EUR/USD", AssetKind::Forex, &req).is_ok());
}

#[test]
fn pair_split_is_exact() {
    let (base, quote) = parse_forex_pair("EUR/USD").unwrap();
    assert_eq!(base, "EUR");
    assert_eq!(quote, "USD");

    let (base, quote) = parse_forex_pair("BTC-USDT").unwrap();
    assert_eq!(base, "BTC");
    assert_eq!(quote, "USDT");

    // the slash takes priority when both delimiters occur
    let (base, quote) = parse_forex_pair("A-B/C").unwrap();
    assert_eq!(base, "A-B");
    assert_eq!(quote, "C");
}

#[test]
fn pair_empty_side_is_rejected() {
    for bad in ["/USD", "EUR/", "-USD", "EUR-", "/"] {
        let err = parse_forex_pair(bad).unwrap_err();
        match err {
            BorsaError::InvalidArg(m) => {
                assert!(m.contains("empty base or quote currency"), "{m}");
            }
            other => panic!("expected InvalidArg, got {other:?}"),
        }
    }
}

#[test]
fn daily_unadjusted_pair_request_takes_the_pair_path() {
    let req = HistoryRequest::new(Interval::D1, false);
    match plan_history("EUR/USD", AssetKind::Forex, &req).unwrap() {
        HistoryPlan::Forex {
            base,
            quote,
            function,
            interval,
        } => {
            assert_eq!(base, "EUR");
            assert_eq!(quote, "USD");
            assert_eq!(function, ForexFunction::Daily);
            assert_eq!(interval, None);
        }
        other => panic!("expected a pair plan, got {other:?}"),
    }

    // and a delimiter-less symbol fails before any network interaction
    let err = plan_history("EURUSD", AssetKind::Forex, &req).unwrap_err();
    assert!(matches!(err, BorsaError::InvalidArg(_)));
}
