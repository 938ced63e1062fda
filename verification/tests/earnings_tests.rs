//! Fiscal period parsing and earnings mapping tests.

use borsa_alphavantage::domain::{
    Earnings, EarningsQuarter, EarningsQuarterEps, EarningsYear, Period,
};
use borsa_alphavantage::earnings::{
    map_earnings, parse_period, year_prefix, RawAnnualEarning, RawQuarterlyEarning,
};
use borsa_alphavantage::money::{Currency, IsoCurrency, Money};

fn usd(s: &str) -> Money {
    Money::from_canonical_str(s, Currency::Iso(IsoCurrency::USD)).unwrap()
}

#[test]
fn earnings_data_structure_validation() {
    let yearly = vec![EarningsYear {
        year: 2023,
        revenue: None,  // Alpha Vantage doesn't provide revenue in earnings endpoint
        earnings: None, // Alpha Vantage doesn't provide earnings in earnings endpoint
    }];

    let quarterly = vec![EarningsQuarter {
        period: parse_period("2024Q1").unwrap(),
        revenue: None,
        earnings: None,
    }];

    let quarterly_eps = vec![EarningsQuarterEps {
        period: parse_period("2024Q1").unwrap(),
        actual: Some(usd("2.99")),
        estimate: Some(usd("2.70")),
    }];

    let earnings = Earnings {
        yearly,
        quarterly,
        quarterly_eps,
    };

    assert_eq!(earnings.yearly.len(), 1);
    assert_eq!(earnings.quarterly.len(), 1);
    assert_eq!(earnings.quarterly_eps.len(), 1);

    assert_eq!(earnings.yearly[0].year, 2023);
    assert!(matches!(
        earnings.quarterly[0].period,
        Period::Quarter { .. } | Period::Year { .. } | Period::Date { .. }
    ));
    assert_eq!(
        earnings.quarterly_eps[0]
            .actual
            .as_ref()
            .unwrap()
            .canonical_str(),
        "2.99"
    );
    assert_eq!(
        earnings.quarterly_eps[0]
            .estimate
            .as_ref()
            .unwrap()
            .canonical_str(),
        "2.70"
    );
}

#[test]
fn convert_earnings_periods_parse() {
    let _y = EarningsQuarterEps {
        period: parse_period("2024Q1").unwrap(),
        actual: None,
        estimate: None,
    };
    let q = EarningsQuarter {
        period: parse_period("2024Q1").unwrap(),
        revenue: None,
        earnings: None,
    };
    assert!(matches!(
        q.period,
        Period::Quarter { .. } | Period::Year { .. } | Period::Date { .. }
    ));
}

#[test]
fn period_grammar_is_exact() {
    assert_eq!(parse_period("2024"), Some(Period::Year { year: 2024 }));
    assert_eq!(
        parse_period("2024Q1"),
        Some(Period::Quarter {
            year: 2024,
            quarter: 1
        })
    );
    assert_eq!(
        parse_period("2023Q4"),
        Some(Period::Quarter {
            year: 2023,
            quarter: 4
        })
    );
    assert_eq!(
        parse_period("2024-01-15"),
        Some(Period::Date {
            year: 2024,
            month: 1,
            day: 15
        })
    );
    assert_eq!(parse_period("2024Q5"), None);
    assert_eq!(parse_period("2024Q0"), None);
    assert_eq!(parse_period("20x4"), None);
    assert_eq!(parse_period("2024-13-01"), None);
    assert_eq!(parse_period("2024-01-32"), None);
    assert_eq!(parse_period("2024-1-5"), None);
    assert_eq!(parse_period(""), None);
}

#[test]
fn year_prefix_reads_the_leading_year() {
    assert_eq!(year_prefix("2023-09-30"), 2023);
    assert_eq!(year_prefix("1999"), 1999);
    assert_eq!(year_prefix("-123"), -123);
    assert_eq!(year_prefix("abcd-01-01"), 0);
    assert_eq!(year_prefix("20"), 0);
    assert_eq!(year_prefix(""), 0);
}

#[test]
fn earnings_mapping_fills_the_canonical_shape() {
    let annual = vec![
        RawAnnualEarning {
            fiscal_date_ending: "2023-09-30".to_string(),
        },
        RawAnnualEarning {
            fiscal_date_ending: "bogus".to_string(),
        },
    ];
    let quarterly = vec![
        RawQuarterlyEarning {
            fiscal_date_ending: "2023-12-31".to_string(),
            reported_date: "2024-01-25".to_string(),
            reported_eps: Some(usd("2.99")),
            estimated_eps: usd("2.70"),
        },
        RawQuarterlyEarning {
            fiscal_date_ending: "2023-09-30".to_string(),
            reported_date: String::new(),
            reported_eps: None,
            estimated_eps: usd("1.5"),
        },
    ];
    let e = map_earnings(&annual, &quarterly);

    assert_eq!(e.yearly.len(), 2);
    assert_eq!(e.yearly[0].year, 2023);
    assert_eq!(e.yearly[1].year, 0);
    assert_eq!(e.yearly[0].revenue, None);
    assert_eq!(e.yearly[0].earnings, None);

    assert_eq!(e.quarterly.len(), 2);
    assert_eq!(
        e.quarterly[0].period,
        Period::Date {
            year: 2023,
            month: 12,
            day: 31
        }
    );

    assert_eq!(e.quarterly_eps.len(), 2);
    // the report date wins when present
    assert_eq!(
        e.quarterly_eps[0].period,
        Period::Date {
            year: 2024,
            month: 1,
            day: 25
        }
    );
    // otherwise the fiscal quarter end applies
    assert_eq!(
        e.quarterly_eps[1].period,
        Period::Date {
            year: 2023,
            month: 9,
            day: 30
        }
    );
    assert_eq!(e.quarterly_eps[0].actual, Some(usd("2.99")));
    assert_eq!(e.quarterly_eps[0].estimate, Some(usd("2.70")));
    assert_eq!(e.quarterly_eps[1].actual, None);
}
