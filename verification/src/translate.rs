//! Request translation: picking the upstream endpoint, its interval encoding
//! and its parameters for an abstract (asset kind, interval, adjustment)
//! request, or rejecting the combination.

use vstd::prelude::*;

use crate::domain::{AssetKind, HistoryRequest, Interval};
use crate::error::BorsaError;
use crate::pair::{parse_forex_pair, spec_delim_pos, spec_pair_ok};

verus! {

/// The upstream time-series endpoint family for single-asset series.
#[derive(Debug, Clone, Copy, PartialEq, Eq, Structural)]
pub enum StockFunction {
    IntraDay,
    Daily,
    DailyAdjusted,
    Weekly,
    WeeklyAdjusted,
    Monthly,
    MonthlyAdjusted,
}

/// The upstream endpoint family for currency-pair series; pairs have no
/// adjusted variants.
#[derive(Debug, Clone, Copy, PartialEq, Eq, Structural)]
pub enum ForexFunction {
    IntraDay,
    Daily,
    Weekly,
    Monthly,
}

/// The upstream endpoint family for crypto series; always unadjusted.
#[derive(Debug, Clone, Copy, PartialEq, Eq, Structural)]
pub enum CryptoFunction {
    Daily,
    Weekly,
    Monthly,
}

/// The upstream intraday interval encoding.
#[derive(Debug, Clone, Copy, PartialEq, Eq, Structural)]
pub enum IntradayInterval {
    OneMin,
    FiveMin,
    FifteenMin,
    ThirtyMin,
    SixtyMin,
}

/// The intraday encoding for a minute count the vendor offers.
pub open spec fn spec_intraday_code(minutes: u32) -> Option<IntradayInterval> {
    if minutes == 1 {
        Some(IntradayInterval::OneMin)
    } else if minutes == 5 {
        Some(IntradayInterval::FiveMin)
    } else if minutes == 15 {
        Some(IntradayInterval::FifteenMin)
    } else if minutes == 30 {
        Some(IntradayInterval::ThirtyMin)
    } else if minutes == 60 {
        Some(IntradayInterval::SixtyMin)
    } else {
        None
    }
}

/// The single-asset endpoint selection: intraday granularities the vendor
/// offers map to the intraday endpoint with their code; daily, weekly and
/// monthly map to the adjusted or raw variant according to the flag; every
/// other granularity is unsupported.
pub open spec fn spec_translate_equity(i: Interval, adjust: bool) -> Option<
    (StockFunction, Option<IntradayInterval>),
> {
    match i.spec_minutes() {
        Some(m) => match spec_intraday_code(m) {
            Some(code) => Some((StockFunction::IntraDay, Some(code))),
            None => None,
        },
        None => match i {
            Interval::D1 => Some(
                (
                    if adjust {
                        StockFunction::DailyAdjusted
                    } else {
                        StockFunction::Daily
                    },
                    None,
                ),
            ),
            Interval::W1 => Some(
                (
                    if adjust {
                        StockFunction::WeeklyAdjusted
                    } else {
                        StockFunction::Weekly
                    },
                    None,
                ),
            ),
            Interval::M1 => Some(
                (
                    if adjust {
                        StockFunction::MonthlyAdjusted
                    } else {
                        StockFunction::Monthly
                    },
                    None,
                ),
            ),
            _ => None,
        },
    }
}

/// The currency-pair endpoint selection; the adjustment flag plays no part,
/// pairs having no adjusted variant.
pub open spec fn spec_translate_forex(i: Interval) -> Option<
    (ForexFunction, Option<IntradayInterval>),
> {
    match i.spec_minutes() {
        Some(m) => match spec_intraday_code(m) {
            Some(code) => Some((ForexFunction::IntraDay, Some(code))),
            None => None,
        },
        None => match i {
            Interval::D1 => Some((ForexFunction::Daily, None)),
            Interval::W1 => Some((ForexFunction::Weekly, None)),
            Interval::M1 => Some((ForexFunction::Monthly, None)),
            _ => None,
        },
    }
}

/// The crypto endpoint selection is total: weekly and monthly (with the
/// month-quarter treated as monthly) select their endpoints, everything
/// else falls back to the daily one.
pub open spec fn spec_translate_crypto(i: Interval) -> CryptoFunction {
    match i {
        Interval::W1 => CryptoFunction::Weekly,
        Interval::M1 => CryptoFunction::Monthly,
        Interval::M3 => CryptoFunction::Monthly,
        _ => CryptoFunction::Daily,
    }
}

/// Translates a single-asset history request onto its upstream endpoint.
pub fn translate_equity(interval: Interval, adjust: bool) -> (r: Result<
    (StockFunction, Option<IntradayInterval>),
    BorsaError,
>)
    ensures
        spec_translate_equity(interval, adjust) matches Some(t) ==> r == Ok::<_, BorsaError>(t),
        spec_translate_equity(interval, adjust) is None ==> (r matches Err(e) && e
            matches BorsaError::Unsupported(m) && m@ == (if interval.spec_is_intraday() {
            "intraday interval for Alpha Vantage"@
        } else {
            "interval for Alpha Vantage"@
        })),
{
    match interval.minutes() {
        Some(m) => match intraday_code(m) {
            Some(code) => Ok((StockFunction::IntraDay, Some(code))),
            None => Err(BorsaError::unsupported("intraday interval for Alpha Vantage")),
        },
        None => match interval {
            Interval::D1 => Ok(
                (
                    if adjust {
                        StockFunction::DailyAdjusted
                    } else {
                        StockFunction::Daily
                    },
                    None,
                ),
            ),
            Interval::W1 => Ok(
                (
                    if adjust {
                        StockFunction::WeeklyAdjusted
                    } else {
                        StockFunction::Weekly
                    },
                    None,
                ),
            ),
            Interval::M1 => Ok(
                (
                    if adjust {
                        StockFunction::MonthlyAdjusted
                    } else {
                        StockFunction::Monthly
                    },
                    None,
                ),
            ),
            _ => Err(BorsaError::unsupported("interval for Alpha Vantage")),
        },
    }
}

/// Translates a currency-pair history request onto its upstream endpoint.
pub fn translate_forex(interval: Interval) -> (r: Result<
    (ForexFunction, Option<IntradayInterval>),
    BorsaError,
>)
    ensures
        spec_translate_forex(interval) matches Some(t) ==> r == Ok::<_, BorsaError>(t),
        spec_translate_forex(interval) is None ==> (r matches Err(e) && e
            matches BorsaError::Unsupported(m) && m@ == (if interval.spec_is_intraday() {
            "intraday interval for Alpha Vantage"@
        } else {
            "interval for Alpha Vantage"@
        })),
{
    match interval.minutes() {
        Some(m) => match intraday_code(m) {
            Some(code) => Ok((ForexFunction::IntraDay, Some(code))),
            None => Err(BorsaError::unsupported("intraday interval for Alpha Vantage")),
        },
        None => match interval {
            Interval::D1 => Ok((ForexFunction::Daily, None)),
            Interval::W1 => Ok((ForexFunction::Weekly, None)),
            Interval::M1 => Ok((ForexFunction::Monthly, None)),
            _ => Err(BorsaError::unsupported("interval for Alpha Vantage")),
        },
    }
}

/// Translates a crypto history request onto its upstream endpoint.
pub fn translate_crypto(interval: Interval) -> (r: CryptoFunction)
    ensures
        r == spec_translate_crypto(interval),
{
    match interval {
        Interval::W1 => CryptoFunction::Weekly,
        Interval::M1 => CryptoFunction::Monthly,
        Interval::M3 => CryptoFunction::Monthly,
        _ => CryptoFunction::Daily,
    }
}

/// The intraday encoding for a minute count.
fn intraday_code(minutes: u32) -> (r: Option<IntradayInterval>)
    ensures
        r == spec_intraday_code(minutes),
{
    if minutes == 1 {
        Some(IntradayInterval::OneMin)
    } else if minutes == 5 {
        Some(IntradayInterval::FiveMin)
    } else if minutes == 15 {
        Some(IntradayInterval::FifteenMin)
    } else if minutes == 30 {
        Some(IntradayInterval::ThirtyMin)
    } else if minutes == 60 {
        Some(IntradayInterval::SixtyMin)
    } else {
        None
    }
}

/// The static capability list: the eight granularities this adapter serves,
/// for every asset kind alike.
pub open spec fn spec_supported_intervals() -> Seq<Interval> {
    seq![
        Interval::I1m,
        Interval::I5m,
        Interval::I15m,
        Interval::I30m,
        Interval::I1h,
        Interval::D1,
        Interval::W1,
        Interval::M1,
    ]
}

/// The granularities this adapter serves, in fixed order; the asset kind
/// does not change the list.
pub fn supported_history_intervals(kind: AssetKind) -> (r: Vec<Interval>)
    ensures
        r@ == spec_supported_intervals(),
{
    let mut v: Vec<Interval> = Vec::new();
    v.push(Interval::I1m);
    v.push(Interval::I5m);
    v.push(Interval::I15m);
    v.push(Interval::I30m);
    v.push(Interval::I1h);
    v.push(Interval::D1);
    v.push(Interval::W1);
    v.push(Interval::M1);
    proof {
        assert(v@ =~= spec_supported_intervals());
    }
    v
}

/// The adapter serves exactly equity-like, currency-pair and crypto
/// instruments.
pub fn supports_kind(kind: AssetKind) -> (r: bool)
    ensures
        r == (kind == AssetKind::Equity || kind == AssetKind::Forex || kind == AssetKind::Crypto),
{
    match kind {
        AssetKind::Equity => true,
        AssetKind::Forex => true,
        AssetKind::Crypto => true,
        _ => false,
    }
}

/// For single-asset and currency-pair series alike, a granularity
/// translates to an upstream endpoint exactly when it stands in the
/// advertised capability list, whatever the adjustment flag.
pub proof fn lemma_translation_matches_capabilities(i: Interval, adjust: bool)
    ensures
        spec_translate_equity(i, adjust) is Some <==> spec_supported_intervals().contains(i),
        spec_translate_forex(i) is Some <==> spec_supported_intervals().contains(i),
{
    let s = spec_supported_intervals();
    assert(s.len() == 8);
    assert(s[0] == Interval::I1m);
    assert(s[1] == Interval::I5m);
    assert(s[2] == Interval::I15m);
    assert(s[3] == Interval::I30m);
    assert(s[4] == Interval::I1h);
    assert(s[5] == Interval::D1);
    assert(s[6] == Interval::W1);
    assert(s[7] == Interval::M1);
    match i {
        Interval::I1m => assert(s.contains(i)),
        Interval::I5m => assert(s.contains(i)),
        Interval::I15m => assert(s.contains(i)),
        Interval::I30m => assert(s.contains(i)),
        Interval::I1h => assert(s.contains(i)),
        Interval::D1 => assert(s.contains(i)),
        Interval::W1 => assert(s.contains(i)),
        Interval::M1 => assert(s.contains(i)),
        _ => {
            assert(!s.contains(i)) by {
                assert(forall|j: int| 0 <= j < 8 ==> s[j] != i);
            }
        },
    }
}

/// Everything a history fetch needs from the upstream, decided before any
/// network interaction.
#[derive(Debug, Clone, PartialEq)]
pub enum HistoryPlan {
    /// A single-asset series fetch.
    Equity {
        symbol: String,
        function: StockFunction,
        interval: Option<IntradayInterval>,
        /// Whether the intraday endpoint is asked for adjusted prices;
        /// meaningful only together with an intraday interval.
        adjusted: bool,
    },
    /// A currency-pair series fetch.
    Forex { base: String, quote: String, function: ForexFunction, interval: Option<IntradayInterval> },
    /// A crypto series fetch, always against the fixed market currency.
    Crypto { symbol: String, market: String, function: CryptoFunction },
}

/// Decides the complete upstream shape of a history request: the pair split
/// for currency-style symbols, the endpoint and the interval encoding.
/// Rejections (a malformed pair, an unsupported granularity) happen here,
/// before any network interaction.
pub fn plan_history(symbol: &str, kind: AssetKind, req: &HistoryRequest) -> (r: Result<
    HistoryPlan,
    BorsaError,
>)
    ensures
        kind == AssetKind::Forex ==> {
            &&& !spec_pair_ok(symbol@) && spec_delim_pos(symbol@) is Some ==> (r matches Err(e)
                && e matches BorsaError::InvalidArg(m) && m@ == "Invalid forex pair format: '"@
                + symbol@ + "' - empty base or quote currency"@)
            &&& spec_delim_pos(symbol@) is None ==> (r matches Err(e) && e
                matches BorsaError::InvalidArg(m) && m@
                == "Forex pair for AlphaVantage must be in 'BASE/QUOTE' format, got: '"@ + symbol@
                + "'"@)
            &&& spec_pair_ok(symbol@) ==> (spec_translate_forex(req.spec_interval())
                matches Some(t) ==> (r matches Ok(p) && p matches HistoryPlan::Forex {
                base,
                quote,
                function,
                interval,
            } && spec_delim_pos(symbol@) matches Some(pos) && base@ == symbol@.take(pos) && quote@
                == symbol@.skip(pos + 1) && function == t.0 && interval == t.1))
            &&& spec_pair_ok(symbol@) && spec_translate_forex(req.spec_interval()) is None ==> (
            r matches Err(e) && e matches BorsaError::Unsupported(_))
        },
        kind == AssetKind::Crypto ==> (r matches Ok(p) && p matches HistoryPlan::Crypto {
            symbol: sym,
            market,
            function,
        } && sym@ == symbol@ && market@ == "USD"@ && function == spec_translate_crypto(
            req.spec_interval(),
        )),
        kind != AssetKind::Forex && kind != AssetKind::Crypto ==> {
            &&& spec_translate_equity(req.spec_interval(), req.spec_adjust()) matches Some(t) ==> (
            r matches Ok(p) && p matches HistoryPlan::Equity {
                symbol: sym,
                function,
                interval,
                adjusted,
            } && sym@ == symbol@ && function == t.0 && interval == t.1 && adjusted
                == req.spec_adjust())
            &&& spec_translate_equity(req.spec_interval(), req.spec_adjust()) is None ==> (
            r matches Err(e) && e matches BorsaError::Unsupported(_))
        },
{
    match kind {
        AssetKind::Forex => {
            let (base, quote) = match parse_forex_pair(symbol) {
                Ok(pair) => pair,
                Err(e) => {
                    return Err(e);
                },
            };
            match translate_forex(req.interval()) {
                Ok((function, interval)) => Ok(
                    HistoryPlan::Forex { base, quote, function, interval },
                ),
                Err(e) => Err(e),
            }
        },
        AssetKind::Crypto => {
            let function = translate_crypto(req.interval());
            Ok(
                HistoryPlan::Crypto {
                    symbol: symbol.to_owned(),
                    market: "USD".to_owned(),
                    function,
                },
            )
        },
        _ => {
            match translate_equity(req.interval(), req.auto_adjust()) {
                Ok((function, interval)) => Ok(
                    HistoryPlan::Equity {
                        symbol: symbol.to_owned(),
                        function,
                        interval,
                        adjusted: req.auto_adjust(),
                    },
                ),
                Err(e) => Err(e),
            }
        },
    }
}

} // verus!
