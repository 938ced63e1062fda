//! Request translation and capability tests.

use borsa_alphavantage::domain::{AssetKind, HistoryRequest, Interval};
use borsa_alphavantage::error::BorsaError;
use borsa_alphavantage::translate::{
    plan_history, supported_history_intervals, supports_kind, translate_crypto, translate_equity,
    translate_forex, CryptoFunction, ForexFunction, HistoryPlan, IntradayInterval, StockFunction,
};

#[test]
fn mapping_smoke() {
    let _ = borsa_alphavantage::CONNECTOR_NAME;
}

#[test]
fn mapping_smoke_again() {
    let _ = borsa_alphavantage::VENDOR_NAME;
}

#[test]
fn mapping_supports_known_kinds() {
    assert!(supports_kind(AssetKind::Equity));
}

#[test]
fn av_supported_history_intervals_are_sane() {
    let list = supported_history_intervals(AssetKind::Equity);

    // Intraday that AV actually supports:
    assert!(list.contains(&Interval::I1m));
    assert!(list.contains(&Interval::I5m));
    assert!(list.contains(&Interval::I15m));
    assert!(list.contains(&Interval::I30m));
    assert!(list.contains(&Interval::I1h));

    // Higher-level granularities:
    assert!(list.contains(&Interval::D1));
    assert!(list.contains(&Interval::W1));
    assert!(list.contains(&Interval::M1));

    // Intervals AV does NOT advertise:
    assert!(!list.contains(&Interval::I2m));
    assert!(!list.contains(&Interval::I90m));
    assert!(!list.contains(&Interval::D5));
    assert!(!list.contains(&Interval::M3));
}

#[test]
fn av_supports_expected_kinds() {
    assert!(supports_kind(AssetKind::Equity));
    assert!(supports_kind(AssetKind::Forex));
    assert!(supports_kind(AssetKind::Crypto));

    assert!(!supports_kind(AssetKind::Fund));
    assert!(!supports_kind(AssetKind::Index));
    assert!(!supports_kind(AssetKind::Bond));
    assert!(!supports_kind(AssetKind::Commodity));
}

#[test]
fn av_connector_kind_matrix() {
    // Alpha Vantage supports these asset kinds:
    assert!(supports_kind(AssetKind::Equity));
    assert!(supports_kind(AssetKind::Forex));
    assert!(supports_kind(AssetKind::Crypto));

    // Alpha Vantage does NOT support these asset kinds:
    assert!(!supports_kind(AssetKind::Fund));
    assert!(!supports_kind(AssetKind::Index));
    assert!(!supports_kind(AssetKind::Bond));
    assert!(!supports_kind(AssetKind::Commodity));
}

#[test]
fn intraday_intervals_supported() {
    let supported_intervals = vec![
        Interval::I1m,
        Interval::I5m,
        Interval::I15m,
        Interval::I30m,
        Interval::I1h,
    ];
    for interval in supported_intervals {
        assert!(translate_equity(interval, false).is_ok());
        assert!(translate_forex(interval).is_ok());
    }
}

#[test]
fn daily_intervals_supported() {
    assert!(translate_equity(Interval::D1, true).is_ok());
    assert!(translate_equity(Interval::D1, false).is_ok());
}

#[test]
fn weekly_intervals_supported() {
    assert!(translate_equity(Interval::W1, true).is_ok());
    assert!(translate_equity(Interval::W1, false).is_ok());
}

#[test]
fn monthly_intervals_supported() {
    assert!(translate_equity(Interval::M1, true).is_ok());
    assert!(translate_equity(Interval::M1, false).is_ok());
}

#[test]
fn history_unsupported_interval_returns_error() {
    let req = HistoryRequest::new(Interval::I2m, false);
    let err = plan_history("AAPL", AssetKind::Equity, &req).err().unwrap();
    assert!(err.message().to_lowercase().contains("unsupported"));
}

#[test]
fn equity_translation_table_is_exact() {
    assert_eq!(
        translate_equity(Interval::I1m, false).unwrap(),
        (StockFunction::IntraDay, Some(IntradayInterval::OneMin))
    );
    assert_eq!(
        translate_equity(Interval::I5m, true).unwrap(),
        (StockFunction::IntraDay, Some(IntradayInterval::FiveMin))
    );
    assert_eq!(
        translate_equity(Interval::I15m, false).unwrap(),
        (StockFunction::IntraDay, Some(IntradayInterval::FifteenMin))
    );
    assert_eq!(
        translate_equity(Interval::I30m, false).unwrap(),
        (StockFunction::IntraDay, Some(IntradayInterval::ThirtyMin))
    );
    assert_eq!(
        translate_equity(Interval::I1h, false).unwrap(),
        (StockFunction::IntraDay, Some(IntradayInterval::SixtyMin))
    );
    assert_eq!(
        translate_equity(Interval::D1, false).unwrap(),
        (StockFunction::Daily, None)
    );
    assert_eq!(
        translate_equity(Interval::D1, true).unwrap(),
        (StockFunction::DailyAdjusted, None)
    );
    assert_eq!(
        translate_equity(Interval::W1, false).unwrap(),
        (StockFunction::Weekly, None)
    );
    assert_eq!(
        translate_equity(Interval::W1, true).unwrap(),
        (StockFunction::WeeklyAdjusted, None)
    );
    assert_eq!(
        translate_equity(Interval::M1, false).unwrap(),
        (StockFunction::Monthly, None)
    );
    assert_eq!(
        translate_equity(Interval::M1, true).unwrap(),
        (StockFunction::MonthlyAdjusted, None)
    );
    assert!(translate_equity(Interval::I90m, false).is_err());
    assert!(translate_equity(Interval::D5, false).is_err());
    assert!(translate_equity(Interval::M3, true).is_err());
}

#[test]
fn forex_translation_ignores_adjustment() {
    assert_eq!(
        translate_forex(Interval::D1).unwrap(),
        (ForexFunction::Daily, None)
    );
    assert_eq!(
        translate_forex(Interval::W1).unwrap(),
        (ForexFunction::Weekly, None)
    );
    assert_eq!(
        translate_forex(Interval::M1).unwrap(),
        (ForexFunction::Monthly, None)
    );
    assert_eq!(
        translate_forex(Interval::I1m).unwrap(),
        (ForexFunction::IntraDay, Some(IntradayInterval::OneMin))
    );
    assert!(translate_forex(Interval::I2m).is_err());
}

#[test]
fn crypto_translation_is_total() {
    assert_eq!(translate_crypto(Interval::W1), CryptoFunction::Weekly);
    assert_eq!(translate_crypto(Interval::M1), CryptoFunction::Monthly);
    assert_eq!(translate_crypto(Interval::M3), CryptoFunction::Monthly);
    assert_eq!(translate_crypto(Interval::D1), CryptoFunction::Daily);
    assert_eq!(translate_crypto(Interval::I2m), CryptoFunction::Daily);
}

#[test]
fn intraday_unsupported_minutes_name_the_reason() {
    let err = translate_equity(Interval::I90m, false).err().unwrap();
    match err {
        BorsaError::Unsupported(m) => {
            assert_eq!(m, "intraday interval for Alpha Vantage");
        }
        other => panic!("expected Unsupported, got {other:?}"),
    }
}

#[test]
fn equity_plan_carries_the_symbol_through() {
    let req = HistoryRequest::new(Interval::D1, true);
    match plan_history("AAPL", AssetKind::Equity, &req).unwrap() {
        HistoryPlan::Equity {
            symbol,
            function,
            interval,
            adjusted,
        } => {
            assert_eq!(symbol, "AAPL");
            assert_eq!(function, StockFunction::DailyAdjusted);
            assert_eq!(interval, None);
            assert!(adjusted);
        }
        other => panic!("expected an equity plan, got {other:?}"),
    }
}
