//! Exact decimal amount tests: parsing, rendering, and the round trip.

use borsa_alphavantage::error::BorsaError;
use borsa_alphavantage::money::{Currency, IsoCurrency, Money};

fn usd(s: &str) -> Money {
    Money::from_canonical_str(s, Currency::Iso(IsoCurrency::USD)).unwrap()
}

#[test]
fn parse_preserves_the_decimal_text() {
    assert_eq!(usd("123").canonical_str(), "123");
    assert_eq!(usd("2.99").canonical_str(), "2.99");
    assert_eq!(usd("1.0").canonical_str(), "1.0");
    assert_eq!(usd("0.05").canonical_str(), "0.05");
    assert_eq!(usd("-5").canonical_str(), "-5");
    assert_eq!(usd("-0.25").canonical_str(), "-0.25");
}

#[test]
fn float_text_round_trips_without_artifacts() {
    // prices arrive as floats and are converted through their text
    assert_eq!(usd(&123.0f64.to_string()).canonical_str(), "123");
    assert_eq!(usd(&120.0f64.to_string()).canonical_str(), "120");
    assert_eq!(usd(&2.99f64.to_string()).canonical_str(), "2.99");
}

#[test]
fn equal_texts_compare_equal() {
    assert_eq!(usd("123"), usd("123"));
    assert_eq!(usd("1.0"), usd("1.0"));
    assert_ne!(usd("123"), usd("124"));
    assert_ne!(usd("1"), usd("-1"));
}

#[test]
fn invalid_decimal_text_is_rejected() {
    for bad in ["", "abc", "1.", ".5", "1.2.3", "--1", "1e3", "NaN", "inf", " 1"] {
        let r = Money::from_canonical_str(bad, Currency::Iso(IsoCurrency::USD));
        match r {
            Err(BorsaError::InvalidArg(m)) => {
                assert!(m.contains("invalid decimal amount"), "{m}");
            }
            other => panic!("expected InvalidArg for {bad:?}, got {other:?}"),
        }
    }
}

#[test]
fn positivity_follows_sign_and_digits() {
    assert!(usd("0.01").is_positive());
    assert!(usd("7").is_positive());
    assert!(!usd("0").is_positive());
    assert!(!usd("0.0").is_positive());
    assert!(!usd("-3").is_positive());
}
