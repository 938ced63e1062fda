//! Response normalization tests: timestamps, series, quotes, volume
//! coercion and search mapping.

use borsa_alphavantage::decimal::coerce_volume;
use borsa_alphavantage::domain::{Action, AssetKind, Exchange};
use borsa_alphavantage::error::BorsaError;
use borsa_alphavantage::money::{Currency, IsoCurrency, Money};
use borsa_alphavantage::normalize::{
    map_crypto_to_history, map_forex_to_history, map_kind_from_search_type, map_quote, map_search,
    map_timeseries_to_history, RawBar, RawCryptoBar, RawFxBar, RawMatch, RawQuote,
};
use borsa_alphavantage::timestamp::resolve_timestamp;

fn usd(s: &str) -> Money {
    Money::from_canonical_str(s, Currency::Iso(IsoCurrency::USD)).unwrap()
}

fn bar(time: &str, close: &str) -> RawBar {
    RawBar {
        time: time.to_string(),
        open: usd("1"),
        high: usd("2"),
        low: usd("0.5"),
        close: usd(close),
        adjusted: None,
        dividend: None,
        volume: 10,
    }
}

#[test]
fn timestamps_resolve_in_utc_without_a_zone() {
    assert_eq!(resolve_timestamp("2024-01-02 00:00:00", None), Some(1704153600));
    assert_eq!(resolve_timestamp("2024-01-02", None), Some(1704153600));
    assert_eq!(resolve_timestamp("2024-01-02 01:02:03", None), Some(1704157323));
    assert_eq!(resolve_timestamp("not a time", None), None);
}

#[test]
fn timestamps_resolve_in_the_declared_zone() {
    // midnight in US/Eastern is five hours after midnight UTC in January
    assert_eq!(
        resolve_timestamp("2024-01-02 00:00:00", Some("US/Eastern")),
        Some(1704171600)
    );
    assert_eq!(resolve_timestamp("2024-01-02", Some("US/Eastern")), Some(1704171600));
    // an unknown zone name falls back to UTC
    assert_eq!(
        resolve_timestamp("2024-01-02 00:00:00", Some("Nowhere/Nope")),
        Some(1704153600)
    );
}

#[test]
fn crypto_volume_coercion_saturates_and_rounds() {
    assert_eq!(coerce_volume(&(-5.0f64).to_string()), 0);
    assert_eq!(coerce_volume(&3.6f64.to_string()), 4);
    assert_eq!(coerce_volume(&f64::NAN.to_string()), u64::MAX);
    assert_eq!(coerce_volume(&f64::INFINITY.to_string()), u64::MAX);
    assert_eq!(coerce_volume(&1000000.4f64.to_string()), 1000000);
    assert_eq!(coerce_volume("0"), 0);
    assert_eq!(coerce_volume("2.5"), 3);
    assert_eq!(coerce_volume("0.4"), 0);
    assert_eq!(coerce_volume("18446744073709551615"), u64::MAX);
    assert_eq!(coerce_volume("18446744073709551616"), u64::MAX);
}

#[test]
fn equity_series_sorts_prefers_adjusted_and_collects_dividends() {
    let mut b1 = bar("2024-01-03", "30");
    b1.adjusted = Some(usd("29"));
    let mut b2 = bar("2024-01-01", "10");
    b2.dividend = Some(usd("0.5"));
    let b3 = bar("2024-01-02", "20");
    let bars = vec![b1, b2, b3];
    let r = map_timeseries_to_history(&bars, "UTC");

    assert_eq!(r.candles.len(), 3);
    assert!(r.candles.windows(2).all(|w| w[0].ts <= w[1].ts));
    assert_eq!(r.candles[0].close, usd("10"));
    assert_eq!(r.candles[1].close, usd("20"));
    // the adjusted close replaces the raw close
    assert_eq!(r.candles[2].close, usd("29"));
    assert_eq!(r.candles[0].volume, Some(10));
    assert_eq!(r.candles[0].close_unadj, None);

    assert_eq!(r.actions.len(), 1);
    let Action::Dividend { ts, amount } = r.actions[0];
    assert_eq!(ts, 1704067200);
    assert_eq!(amount, usd("0.5"));

    assert!(r.adjusted);
    let meta = r.meta.unwrap();
    assert_eq!(meta.timezone.as_deref(), Some("UTC"));
    assert_eq!(meta.utc_offset_seconds, None);
}

#[test]
fn equity_series_without_adjustment_data_is_not_flagged() {
    let bars = vec![bar("2024-01-01", "10"), bar("2024-01-02", "11")];
    let r = map_timeseries_to_history(&bars, "UTC");
    assert!(!r.adjusted);
    assert!(r.actions.is_empty());
}

#[test]
fn zero_dividend_adds_no_action_but_flags_adjustment() {
    let mut b = bar("2024-01-01", "10");
    b.dividend = Some(usd("0"));
    let bars = vec![b];
    let r = map_timeseries_to_history(&bars, "UTC");
    assert!(r.actions.is_empty());
    // the field was present, so the series counts as adjusted
    assert!(r.adjusted);
}

#[test]
fn unparseable_timestamps_drop_the_observation_only() {
    let bars = vec![
        bar("garbage", "10"),
        bar("2024-01-02", "20"),
        bar("2024-01-01", "30"),
    ];
    let r = map_timeseries_to_history(&bars, "UTC");
    assert_eq!(r.candles.len(), 2);
    assert_eq!(r.candles[0].close, usd("30"));
    assert_eq!(r.candles[1].close, usd("20"));
}

#[test]
fn unknown_series_timezone_resolves_to_no_meta_zone() {
    let bars = vec![bar("2024-01-01", "10")];
    let r = map_timeseries_to_history(&bars, "Nowhere/Nope");
    assert_eq!(r.meta.unwrap().timezone, None);
}

#[test]
fn forex_series_has_no_volume_and_is_never_adjusted() {
    let bars = vec![
        RawFxBar {
            time: "2024-01-02".to_string(),
            open: usd("2"),
            high: usd("2"),
            low: usd("2"),
            close: usd("2"),
        },
        RawFxBar {
            time: "2024-01-01".to_string(),
            open: usd("1"),
            high: usd("1"),
            low: usd("1"),
            close: usd("1"),
        },
    ];
    let r = map_forex_to_history(&bars, "UTC");
    assert_eq!(r.candles.len(), 2);
    assert!(r.candles.windows(2).all(|w| w[0].ts <= w[1].ts));
    assert_eq!(r.candles[0].close, usd("1"));
    assert_eq!(r.candles[0].volume, None);
    assert!(!r.adjusted);
    assert!(r.actions.is_empty());
}

#[test]
fn crypto_series_coerces_volume_and_is_never_adjusted() {
    let bars = vec![
        RawCryptoBar {
            time: "2024-01-01".to_string(),
            open: usd("1"),
            high: usd("1"),
            low: usd("1"),
            close: usd("1"),
            volume: 3.6f64.to_string(),
        },
        RawCryptoBar {
            time: "2024-01-02".to_string(),
            open: usd("2"),
            high: usd("2"),
            low: usd("2"),
            close: usd("2"),
            volume: (-5.0f64).to_string(),
        },
    ];
    let r = map_crypto_to_history(&bars, "UTC");
    assert_eq!(r.candles.len(), 2);
    assert_eq!(r.candles[0].volume, Some(4));
    assert_eq!(r.candles[1].volume, Some(0));
    assert!(!r.adjusted);
    assert!(r.actions.is_empty());
}

#[test]
fn quote_equity_maps_correctly() {
    let raw = RawQuote {
        symbol: "AAPL".to_string(),
        price: usd(&123.0f64.to_string()),
        previous_close: usd(&120.0f64.to_string()),
    };
    let quote = map_quote(&raw, "AAPL").unwrap();
    assert_eq!(quote.symbol.as_str(), "AAPL");
    assert!(quote.price.is_some());
    assert_eq!(quote.price.unwrap().canonical_str(), "123");
    assert_eq!(quote.previous_close.unwrap().canonical_str(), "120");
    assert_eq!(quote.shortname, None);
    assert!(quote.exchange.is_none());
    assert_eq!(quote.market_state, None);
}

#[test]
fn quote_with_empty_symbol_is_not_found() {
    let raw = RawQuote {
        symbol: String::new(),
        price: usd("1"),
        previous_close: usd("1"),
    };
    match map_quote(&raw, "GHOST").unwrap_err() {
        BorsaError::NotFound { what } => assert_eq!(what, "quote for GHOST"),
        other => panic!("expected NotFound, got {other:?}"),
    }
}

#[test]
fn search_injection_basic() {
    let ex = Exchange::try_from_str("US").unwrap();
    assert_eq!(ex.code(), "US");
}

fn synthetic_match(i: usize) -> RawMatch {
    RawMatch {
        symbol: format!("SYM{i}"),
        name: String::new(),
        stock_type: "Equity".to_string(),
        region: "US".to_string(),
    }
}

#[test]
fn search_limit_is_respected() {
    let mut results = vec![];
    for i in 0..20 {
        results.push(synthetic_match(i));
    }
    let out = map_search(&results, None, Some(5)).unwrap();
    assert_eq!(out.len(), 5);
    // upstream order is preserved: exactly the first five
    for (i, r) in out.iter().enumerate() {
        assert_eq!(r.symbol.as_str(), format!("SYM{i}"));
    }
}

#[test]
fn search_filter_applies_before_the_limit() {
    let mut results = vec![];
    for i in 0..6 {
        let mut m = synthetic_match(i);
        if i % 2 == 0 {
            m.stock_type = "ETF".to_string();
        }
        results.push(m);
    }
    // three of six classify as funds; a limit of two keeps the first two funds
    let out = map_search(&results, Some(AssetKind::Fund), Some(2)).unwrap();
    assert_eq!(out.len(), 2);
    assert_eq!(out[0].symbol.as_str(), "SYM0");
    assert_eq!(out[1].symbol.as_str(), "SYM2");
    assert_eq!(out[0].kind, AssetKind::Fund);
}

#[test]
fn search_maps_fields_and_classification() {
    let m = RawMatch {
        symbol: "AAPL".to_string(),
        name: "Apple Inc".to_string(),
        stock_type: "Equity".to_string(),
        region: "United States".to_string(),
    };
    let out = map_search(&vec![m], None, None).unwrap();
    assert_eq!(out.len(), 1);
    assert_eq!(out[0].symbol.as_str(), "AAPL");
    assert_eq!(out[0].name.as_deref(), Some("Apple Inc"));
    // a free-form region is not an exchange code
    assert!(out[0].exchange.is_none());
    assert_eq!(out[0].kind, AssetKind::Equity);
}

#[test]
fn search_empty_symbol_is_a_data_error() {
    let mut m = synthetic_match(0);
    m.symbol = String::new();
    match map_search(&vec![m], None, None).unwrap_err() {
        BorsaError::Data(msg) => assert!(msg.contains("invalid symbol"), "{msg}"),
        other => panic!("expected Data, got {other:?}"),
    }
}

#[test]
fn security_type_classification_table() {
    assert_eq!(map_kind_from_search_type("ETF"), AssetKind::Fund);
    assert_eq!(map_kind_from_search_type("Mutual Fund"), AssetKind::Fund);
    assert_eq!(map_kind_from_search_type("fund"), AssetKind::Fund);
    assert_eq!(map_kind_from_search_type("Index"), AssetKind::Index);
    assert_eq!(map_kind_from_search_type("Currency"), AssetKind::Forex);
    assert_eq!(map_kind_from_search_type("FOREX"), AssetKind::Forex);
    assert_eq!(map_kind_from_search_type("Cryptocurrency"), AssetKind::Crypto);
    assert_eq!(map_kind_from_search_type("crypto"), AssetKind::Crypto);
    assert_eq!(map_kind_from_search_type("Digital Currency"), AssetKind::Crypto);
    assert_eq!(map_kind_from_search_type("  etf  "), AssetKind::Fund);
    assert_eq!(map_kind_from_search_type("Equity"), AssetKind::Equity);
    assert_eq!(map_kind_from_search_type("anything else"), AssetKind::Equity);
    assert_eq!(map_kind_from_search_type(""), AssetKind::Equity);
}
