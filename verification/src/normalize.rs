//! Response normalization: turning raw upstream observations into the
//! canonical history, quote and search-result shapes.
//!
//! The transport hands the library one plain record per upstream
//! observation — timestamps as the vendor's text, prices already converted
//! to exact decimal amounts, the crypto volume as the vendor's decimal text.
//! Everything from there on is verified: timestamp resolution, the
//! adjusted-close choice, dividend extraction, volume coercion, ordering,
//! filtering and truncation.

use vstd::prelude::*;

use crate::decimal::{coerce_volume, spec_coerce_volume};
use crate::domain::{
    Action, AssetKind, Candle, Exchange, HistoryMeta, HistoryResponse, Quote, SearchResult, Symbol,
    spec_exchange_code_ok,
};
use crate::error::BorsaError;
use crate::money::Money;
use crate::text::{eq_trim_upper, spec_trim, spec_upper};
use crate::timestamp::{known_timezone, resolve_timestamp, spec_resolve_timestamp, timezone_exists};

verus! {

broadcast use vstd::seq_lib::group_to_multiset_ensures;

/// One raw single-asset observation, as the transport hands it over.
#[derive(Debug, Clone, PartialEq)]
pub struct RawBar {
    /// The vendor's timestamp text.
    pub time: String,
    pub open: Money,
    pub high: Money,
    pub low: Money,
    pub close: Money,
    /// The adjusted close, when the endpoint reports one.
    pub adjusted: Option<Money>,
    /// The dividend marked on this observation, when any.
    pub dividend: Option<Money>,
    pub volume: u64,
}

/// One raw currency-pair observation; pairs carry no volume, adjustment or
/// dividend data.
#[derive(Debug, Clone, PartialEq)]
pub struct RawFxBar {
    pub time: String,
    pub open: Money,
    pub high: Money,
    pub low: Money,
    pub close: Money,
}

/// One raw crypto observation; the volume arrives as the vendor's decimal
/// text and must be coerced to a whole count.
#[derive(Debug, Clone, PartialEq)]
pub struct RawCryptoBar {
    pub time: String,
    pub open: Money,
    pub high: Money,
    pub low: Money,
    pub close: Money,
    pub volume: String,
}

/// The raw upstream quote record.
#[derive(Debug, Clone, PartialEq)]
pub struct RawQuote {
    pub symbol: String,
    pub price: Money,
    pub previous_close: Money,
}

/// One raw symbol-search match.
#[derive(Debug, Clone, PartialEq)]
pub struct RawMatch {
    pub symbol: String,
    pub name: String,
    /// The vendor's free-text security type.
    pub stock_type: String,
    /// The vendor's region text, tried as an exchange code.
    pub region: String,
}

/// Candles stand in non-decreasing instant order.
pub open spec fn spec_sorted_by_ts(s: Seq<Candle>) -> bool {
    forall|i: int, j: int| #![trigger s[i], s[j]] 0 <= i <= j < s.len() ==> s[i].ts <= s[j].ts
}

/// The candle a single-asset observation becomes: the adjusted close is
/// preferred over the raw close, and only the chosen close is kept.
pub open spec fn spec_equity_candle(b: RawBar, epoch: i64) -> Candle {
    Candle {
        ts: epoch,
        open: b.open,
        high: b.high,
        low: b.low,
        close: match b.adjusted {
            Some(a) => a,
            None => b.close,
        },
        close_unadj: None,
        volume: Some(b.volume),
    }
}

/// Whether an observation carries any adjustment data: an adjusted close
/// or a dividend field.
pub open spec fn spec_bar_adjusted_info(b: RawBar) -> bool {
    b.adjusted is Some || b.dividend is Some
}

/// The candles of a single-asset series, in source order: one per
/// observation whose timestamp resolves; the rest are dropped.
pub open spec fn spec_equity_candles(bars: Seq<RawBar>, tz: Option<Seq<char>>) -> Seq<Candle>
    decreases bars.len(),
{
    if bars.len() == 0 {
        Seq::<Candle>::empty()
    } else {
        let rest = spec_equity_candles(bars.drop_last(), tz);
        match spec_resolve_timestamp(bars.last().time@, tz) {
            Some(epoch) => rest.push(spec_equity_candle(bars.last(), epoch)),
            None => rest,
        }
    }
}

/// The dividend actions of a single-asset series, in source order: one per
/// observation whose timestamp resolves and whose dividend is strictly
/// positive.
pub open spec fn spec_equity_actions(bars: Seq<RawBar>, tz: Option<Seq<char>>) -> Seq<Action>
    decreases bars.len(),
{
    if bars.len() == 0 {
        Seq::<Action>::empty()
    } else {
        let rest = spec_equity_actions(bars.drop_last(), tz);
        let b = bars.last();
        match spec_resolve_timestamp(b.time@, tz) {
            Some(epoch) => if b.dividend matches Some(d) && d.spec_positive() {
                rest.push(Action::Dividend { ts: epoch, amount: b.dividend->0 })
            } else {
                rest
            },
            None => rest,
        }
    }
}

/// The candle a currency-pair observation becomes: no volume, no
/// adjustment.
pub open spec fn spec_fx_candle(b: RawFxBar, epoch: i64) -> Candle {
    Candle {
        ts: epoch,
        open: b.open,
        high: b.high,
        low: b.low,
        close: b.close,
        close_unadj: None,
        volume: None,
    }
}

/// The candles of a currency-pair series, in source order.
pub open spec fn spec_fx_candles(bars: Seq<RawFxBar>, tz: Option<Seq<char>>) -> Seq<Candle>
    decreases bars.len(),
{
    if bars.len() == 0 {
        Seq::<Candle>::empty()
    } else {
        let rest = spec_fx_candles(bars.drop_last(), tz);
        match spec_resolve_timestamp(bars.last().time@, tz) {
            Some(epoch) => rest.push(spec_fx_candle(bars.last(), epoch)),
            None => rest,
        }
    }
}

/// The candle a crypto observation becomes: the reported quantity coerced
/// to a whole count.
pub open spec fn spec_crypto_candle(b: RawCryptoBar, epoch: i64) -> Candle {
    Candle {
        ts: epoch,
        open: b.open,
        high: b.high,
        low: b.low,
        close: b.close,
        close_unadj: None,
        volume: Some(spec_coerce_volume(b.volume@)),
    }
}

/// The candles of a crypto series, in source order.
pub open spec fn spec_crypto_candles(bars: Seq<RawCryptoBar>, tz: Option<Seq<char>>) -> Seq<Candle>
    decreases bars.len(),
{
    if bars.len() == 0 {
        Seq::<Candle>::empty()
    } else {
        let rest = spec_crypto_candles(bars.drop_last(), tz);
        match spec_resolve_timestamp(bars.last().time@, tz) {
            Some(epoch) => rest.push(spec_crypto_candle(bars.last(), epoch)),
            None => rest,
        }
    }
}

/// Where a new candle lands in a sorted series: after every candle of an
/// earlier or equal instant, before any later one — the position a stable
/// ascending sort gives it.
pub open spec fn spec_sorted_insert(s: Seq<Candle>, c: Candle) -> Seq<Candle>
    decreases s.len(),
{
    if s.len() > 0 && s.last().ts > c.ts {
        spec_sorted_insert(s.drop_last(), c).push(s.last())
    } else {
        s.push(c)
    }
}

/// A candle series stably sorted by instant: each candle inserted, in
/// source order, at its [`spec_sorted_insert`] position.
pub open spec fn spec_sorted_series(cs: Seq<Candle>) -> Seq<Candle>
    decreases cs.len(),
{
    if cs.len() == 0 {
        Seq::<Candle>::empty()
    } else {
        spec_sorted_insert(spec_sorted_series(cs.drop_last()), cs.last())
    }
}

/// Inserting at the first position whose candle has a later instant is
/// exactly the [`spec_sorted_insert`] position.
proof fn lemma_insert_at_position(s: Seq<Candle>, c: Candle, j: int)
    requires
        spec_sorted_by_ts(s),
        0 <= j <= s.len(),
        forall|k: int| 0 <= k < j ==> #[trigger] s[k].ts <= c.ts,
        j < s.len() ==> s[j].ts > c.ts,
    ensures
        s.insert(j, c) == spec_sorted_insert(s, c),
    decreases s.len(),
{
    s.insert_ensures(j, c);
    if s.len() > 0 && s.last().ts > c.ts {
        assert(j < s.len()) by {
            if j == s.len() {
                assert(s[s.len() - 1].ts <= c.ts);
            }
        }
        let d = s.drop_last();
        assert forall|a: int, b: int| #![trigger d[a], d[b]] 0 <= a <= b < d.len() implies d[a].ts
            <= d[b].ts by {
            assert(d[a] == s[a]);
            assert(d[b] == s[b]);
            assert(s[a].ts <= s[b].ts);
        }
        assert forall|k: int| 0 <= k < j implies #[trigger] d[k].ts <= c.ts by {
            assert(d[k] == s[k]);
        }
        if j < d.len() {
            assert(d[j] == s[j]);
        }
        lemma_insert_at_position(d, c, j);
        d.insert_ensures(j, c);
        assert(s.insert(j, c) =~= d.insert(j, c).push(s.last()));
    } else {
        assert(j == s.len()) by {
            if j < s.len() {
                assert(s[j].ts <= s[s.len() - 1].ts);
            }
        }
        assert(s.insert(j, c) =~= s.push(c));
    }
}

/// Stable insertion adds exactly one copy of the candle to the multiset.
proof fn lemma_sorted_insert_multiset(s: Seq<Candle>, c: Candle)
    ensures
        spec_sorted_insert(s, c).to_multiset() == s.to_multiset().insert(c),
    decreases s.len(),
{
    if s.len() > 0 && s.last().ts > c.ts {
        lemma_sorted_insert_multiset(s.drop_last(), c);
        assert(s.drop_last().push(s.last()) =~= s);
        assert(spec_sorted_insert(s, c).to_multiset() =~= s.to_multiset().insert(c));
    }
}

/// A stably sorted series holds exactly the candles it was built from.
proof fn lemma_sorted_series_multiset(cs: Seq<Candle>)
    ensures
        spec_sorted_series(cs).to_multiset() == cs.to_multiset(),
    decreases cs.len(),
{
    if cs.len() > 0 {
        lemma_sorted_series_multiset(cs.drop_last());
        lemma_sorted_insert_multiset(spec_sorted_series(cs.drop_last()), cs.last());
        assert(cs.drop_last().push(cs.last()) =~= cs);
    }
}

/// Inserts one candle into a series kept in non-decreasing instant order,
/// at its stable position.
fn insert_candle(out: &mut Vec<Candle>, c: Candle)
    requires
        spec_sorted_by_ts(old(out)@),
    ensures
        final(out)@ == spec_sorted_insert(old(out)@, c),
        spec_sorted_by_ts(final(out)@),
{
    let n = out.len();
    let mut j: usize = 0;
    while j < n && out[j].ts <= c.ts
        invariant
            n == out@.len(),
            j <= n,
            out@ == old(out)@,
            forall|k: int| 0 <= k < j ==> #[trigger] out@[k].ts <= c.ts,
        decreases n - j,
    {
        j = j + 1;
    }
    proof {
        assert(j == n || old(out)@[j as int].ts > c.ts);
    }
    out.insert(j, c);
    proof {
        let s = old(out)@;
        let t = out@;
        assert(t == s.insert(j as int, c));
        lemma_insert_at_position(s, c, j as int);
        s.insert_ensures(j as int, c);
        assert forall|a: int, b: int| #![trigger t[a], t[b]] 0 <= a <= b < t.len() implies t[a].ts
            <= t[b].ts by {
            if b < j {
                assert(t[a] == s[a]);
                assert(t[b] == s[b]);
                assert(s[a].ts <= s[b].ts);
            } else if a < j && b == j {
                assert(t[a] == s[a]);
                assert(t[b] == c);
                assert(s[a].ts <= c.ts);
            } else if a < j && b > j {
                assert(t[a] == s[a]);
                assert(t[b] == s[b - 1]);
                assert(s[a].ts <= s[b - 1].ts);
            } else if a == j && b == j {
            } else if a == j && b > j {
                assert(t[a] == c);
                assert(t[b] == s[b - 1]);
                assert(s[j as int].ts > c.ts);
                assert(s[j as int].ts <= s[b - 1].ts);
            } else {
                assert(t[a] == s[a - 1]);
                assert(t[b] == s[b - 1]);
                assert(s[a - 1].ts <= s[b - 1].ts);
            }
        }
    }
}

/// Normalizes a single-asset time series: resolves each timestamp in the
/// series' declared timezone, prefers the adjusted close, collects strictly
/// positive dividends as actions, sorts candles by instant, and flags the
/// whole series adjusted exactly when any observation carried adjustment
/// data.
pub fn map_timeseries_to_history(bars: &Vec<RawBar>, tz: &str) -> (r: HistoryResponse)
    ensures
        r.candles@ == spec_sorted_series(spec_equity_candles(bars@, Some(tz@))),
        spec_sorted_by_ts(r.candles@),
        r.candles@.to_multiset() == spec_equity_candles(bars@, Some(tz@)).to_multiset(),
        r.actions@ == spec_equity_actions(bars@, Some(tz@)),
        r.adjusted == exists|k: int|
            0 <= k < bars@.len() && spec_bar_adjusted_info(#[trigger] bars@[k]),
        r.meta matches Some(m) && m.utc_offset_seconds is None && (if known_timezone(tz@) {
            m.timezone matches Some(z) && z@ == tz@
        } else {
            m.timezone is None
        }),
{
    let mut candles: Vec<Candle> = Vec::new();
    let mut actions: Vec<Action> = Vec::new();
    let mut saw = false;
    let n = bars.len();
    let mut i: usize = 0;
    while i < n
        invariant
            n == bars@.len(),
            i <= n,
            spec_sorted_by_ts(candles@),
            candles@ == spec_sorted_series(spec_equity_candles(bars@.take(i as int), Some(tz@))),
            actions@ == spec_equity_actions(bars@.take(i as int), Some(tz@)),
            saw == exists|k: int| 0 <= k < i && spec_bar_adjusted_info(#[trigger] bars@[k]),
        decreases n - i,
    {
        let b = &bars[i];
        if b.adjusted.is_some() || b.dividend.is_some() {
            saw = true;
        }
        proof {
            assert(bars@.take(i + 1).drop_last() =~= bars@.take(i as int));
            assert(bars@.take(i + 1).last() == bars@[i as int]);
        }
        match resolve_timestamp(b.time.as_str(), Some(tz)) {
            Some(epoch) => {
                let close = match b.adjusted {
                    Some(a) => a,
                    None => b.close,
                };
                let c = Candle {
                    ts: epoch,
                    open: b.open,
                    high: b.high,
                    low: b.low,
                    close,
                    close_unadj: None,
                    volume: Some(b.volume),
                };
                insert_candle(&mut candles, c);
                proof {
                    let prev = spec_equity_candles(bars@.take(i as int), Some(tz@));
                    assert(prev.push(c).drop_last() =~= prev);
                    assert(prev.push(c).last() == c);
                }
                match b.dividend {
                    Some(d) => {
                        if d.is_positive() {
                            actions.push(Action::Dividend { ts: epoch, amount: d });
                        }
                    },
                    None => {},
                }
            },
            None => {},
        }
        i = i + 1;
    }
    proof {
        assert(bars@.take(n as int) =~= bars@);
        lemma_sorted_series_multiset(spec_equity_candles(bars@, Some(tz@)));
    }
    let timezone = if timezone_exists(tz) {
        Some(tz.to_owned())
    } else {
        None
    };
    HistoryResponse {
        candles,
        actions,
        adjusted: saw,
        meta: Some(HistoryMeta { timezone, utc_offset_seconds: None }),
    }
}

/// Normalizes a currency-pair series: the same timestamp and sorting
/// discipline, with no volume, no actions and `adjusted` always false.
pub fn map_forex_to_history(bars: &Vec<RawFxBar>, tz: &str) -> (r: HistoryResponse)
    ensures
        r.candles@ == spec_sorted_series(spec_fx_candles(bars@, Some(tz@))),
        spec_sorted_by_ts(r.candles@),
        r.candles@.to_multiset() == spec_fx_candles(bars@, Some(tz@)).to_multiset(),
        r.actions@ == Seq::<Action>::empty(),
        r.adjusted == false,
        r.meta matches Some(m) && m.utc_offset_seconds is None && (if known_timezone(tz@) {
            m.timezone matches Some(z) && z@ == tz@
        } else {
            m.timezone is None
        }),
{
    let mut candles: Vec<Candle> = Vec::new();
    let n = bars.len();
    let mut i: usize = 0;
    while i < n
        invariant
            n == bars@.len(),
            i <= n,
            spec_sorted_by_ts(candles@),
            candles@ == spec_sorted_series(spec_fx_candles(bars@.take(i as int), Some(tz@))),
        decreases n - i,
    {
        let b = &bars[i];
        proof {
            assert(bars@.take(i + 1).drop_last() =~= bars@.take(i as int));
            assert(bars@.take(i + 1).last() == bars@[i as int]);
        }
        match resolve_timestamp(b.time.as_str(), Some(tz)) {
            Some(epoch) => {
                let c = Candle {
                    ts: epoch,
                    open: b.open,
                    high: b.high,
                    low: b.low,
                    close: b.close,
                    close_unadj: None,
                    volume: None,
                };
                insert_candle(&mut candles, c);
                proof {
                    let prev = spec_fx_candles(bars@.take(i as int), Some(tz@));
                    assert(prev.push(c).drop_last() =~= prev);
                    assert(prev.push(c).last() == c);
                }
            },
            None => {},
        }
        i = i + 1;
    }
    proof {
        assert(bars@.take(n as int) =~= bars@);
        lemma_sorted_series_multiset(spec_fx_candles(bars@, Some(tz@)));
    }
    let timezone = if timezone_exists(tz) {
        Some(tz.to_owned())
    } else {
        None
    };
    HistoryResponse {
        candles,
        actions: Vec::new(),
        adjusted: false,
        meta: Some(HistoryMeta { timezone, utc_offset_seconds: None }),
    }
}

/// Normalizes a crypto series: the same timestamp and sorting discipline,
/// the reported quantity coerced to a whole count, and `adjusted` always
/// false.
pub fn map_crypto_to_history(bars: &Vec<RawCryptoBar>, tz: &str) -> (r: HistoryResponse)
    ensures
        r.candles@ == spec_sorted_series(spec_crypto_candles(bars@, Some(tz@))),
        spec_sorted_by_ts(r.candles@),
        r.candles@.to_multiset() == spec_crypto_candles(bars@, Some(tz@)).to_multiset(),
        r.actions@ == Seq::<Action>::empty(),
        r.adjusted == false,
        r.meta matches Some(m) && m.utc_offset_seconds is None && (if known_timezone(tz@) {
            m.timezone matches Some(z) && z@ == tz@
        } else {
            m.timezone is None
        }),
{
    let mut candles: Vec<Candle> = Vec::new();
    let n = bars.len();
    let mut i: usize = 0;
    while i < n
        invariant
            n == bars@.len(),
            i <= n,
            spec_sorted_by_ts(candles@),
            candles@ == spec_sorted_series(spec_crypto_candles(bars@.take(i as int), Some(tz@))),
        decreases n - i,
    {
        let b = &bars[i];
        proof {
            assert(bars@.take(i + 1).drop_last() =~= bars@.take(i as int));
            assert(bars@.take(i + 1).last() == bars@[i as int]);
        }
        match resolve_timestamp(b.time.as_str(), Some(tz)) {
            Some(epoch) => {
                let vol = coerce_volume(b.volume.as_str());
                let c = Candle {
                    ts: epoch,
                    open: b.open,
                    high: b.high,
                    low: b.low,
                    close: b.close,
                    close_unadj: None,
                    volume: Some(vol),
                };
                insert_candle(&mut candles, c);
                proof {
                    let prev = spec_crypto_candles(bars@.take(i as int), Some(tz@));
                    assert(prev.push(c).drop_last() =~= prev);
                    assert(prev.push(c).last() == c);
                }
            },
            None => {},
        }
        i = i + 1;
    }
    proof {
        assert(bars@.take(n as int) =~= bars@);
        lemma_sorted_series_multiset(spec_crypto_candles(bars@, Some(tz@)));
    }
    let timezone = if timezone_exists(tz) {
        Some(tz.to_owned())
    } else {
        None
    };
    HistoryResponse {
        candles,
        actions: Vec::new(),
        adjusted: false,
        meta: Some(HistoryMeta { timezone, utc_offset_seconds: None }),
    }
}

/// Maps the upstream quote record for the instrument named `requested`.
///
/// An empty symbol field means "no such instrument" and yields `NotFound`;
/// otherwise symbol, price and previous close are copied through, and the
/// fields this vendor does not report stay absent.
pub fn map_quote(raw: &RawQuote, requested: &str) -> (r: Result<Quote, BorsaError>)
    ensures
        raw.symbol@.len() == 0 ==> (r matches Err(e) && e matches BorsaError::NotFound { what }
            && what@ == "quote for "@ + requested@),
        raw.symbol@.len() > 0 ==> (r matches Ok(q) && q.symbol@ == raw.symbol@ && q.shortname
            is None && q.price == Some(raw.price) && q.previous_close == Some(raw.previous_close)
            && q.exchange is None && q.market_state is None),
{
    if raw.symbol.as_str().unicode_len() == 0 {
        let mut what = String::new();
        what.append("quote for ");
        what.append(requested);
        return Err(BorsaError::not_found(what));
    }
    match Symbol::new(raw.symbol.as_str()) {
        Ok(symbol) => Ok(
            Quote {
                symbol,
                shortname: None,
                price: Some(raw.price),
                previous_close: Some(raw.previous_close),
                exchange: None,
                market_state: None,
            },
        ),
        Err(e) => Err(e),
    }
}

/// The fixed, case-insensitive classification of the vendor's free-text
/// security type into an asset kind; anything unrecognized is an equity.
pub open spec fn spec_kind_from_search_type(t: Seq<char>) -> AssetKind {
    let u = spec_upper(spec_trim(t));
    if u == "ETF"@ || u == "MUTUAL FUND"@ || u == "FUND"@ {
        AssetKind::Fund
    } else if u == "INDEX"@ {
        AssetKind::Index
    } else if u == "CURRENCY"@ || u == "FOREX"@ {
        AssetKind::Forex
    } else if u == "CRYPTOCURRENCY"@ || u == "CRYPTO"@ || u == "DIGITAL CURRENCY"@ {
        AssetKind::Crypto
    } else {
        AssetKind::Equity
    }
}

/// Classifies the vendor's free-text security type, ignoring surrounding
/// whitespace and ASCII case.
pub fn map_kind_from_search_type(t: &str) -> (r: AssetKind)
    ensures
        r == spec_kind_from_search_type(t@),
{
    if eq_trim_upper(t, "ETF") || eq_trim_upper(t, "MUTUAL FUND") || eq_trim_upper(t, "FUND") {
        AssetKind::Fund
    } else if eq_trim_upper(t, "INDEX") {
        AssetKind::Index
    } else if eq_trim_upper(t, "CURRENCY") || eq_trim_upper(t, "FOREX") {
        AssetKind::Forex
    } else if eq_trim_upper(t, "CRYPTOCURRENCY") || eq_trim_upper(t, "CRYPTO") || eq_trim_upper(
        t,
        "DIGITAL CURRENCY",
    ) {
        AssetKind::Crypto
    } else {
        AssetKind::Equity
    }
}

/// Whether a match survives the caller's asset-kind filter.
pub open spec fn spec_match_kept(m: RawMatch, filter: Option<AssetKind>) -> bool {
    match filter {
        Some(k) => spec_kind_from_search_type(m.stock_type@) == k,
        None => true,
    }
}

/// The matches that survive the filter, in source order.
pub open spec fn spec_kept_matches(ms: Seq<RawMatch>, filter: Option<AssetKind>) -> Seq<RawMatch>
    decreases ms.len(),
{
    if ms.len() == 0 {
        Seq::<RawMatch>::empty()
    } else {
        let rest = spec_kept_matches(ms.drop_last(), filter);
        if spec_match_kept(ms.last(), filter) {
            rest.push(ms.last())
        } else {
            rest
        }
    }
}

/// The search result one kept match becomes.
pub open spec fn spec_result_matches(m: RawMatch, r: SearchResult) -> bool {
    &&& r.symbol@ == m.symbol@
    &&& r.name matches Some(nm) && nm@ == m.name@
    &&& (if spec_exchange_code_ok(m.region@) {
        r.exchange matches Some(e) && e@ == m.region@
    } else {
        r.exchange is None
    })
    &&& r.kind == spec_kind_from_search_type(m.stock_type@)
}

/// Maps the upstream search matches: classifies each security type,
/// discards classifications the caller did not ask for before any limit is
/// applied, then truncates to the requested limit, preserving upstream
/// order.  A kept match whose symbol is empty makes the whole response a
/// `Data` error.
pub fn map_search(ms: &Vec<RawMatch>, filter: Option<AssetKind>, limit: Option<usize>) -> (r:
    Result<Vec<SearchResult>, BorsaError>)
    ensures
        (forall|k: int|
            0 <= k < ms@.len() && spec_match_kept(#[trigger] ms@[k], filter) ==> ms@[k].symbol@.len()
                > 0) ==> (r matches Ok(v) && {
            let kept = spec_kept_matches(ms@, filter);
            let cap = match limit {
                Some(l) => if l < kept.len() {
                    l as int
                } else {
                    kept.len() as int
                },
                None => kept.len() as int,
            };
            &&& v@.len() == cap
            &&& forall|k: int| 0 <= k < cap ==> spec_result_matches(kept[k], #[trigger] v@[k])
        }),
        (exists|k: int|
            0 <= k < ms@.len() && spec_match_kept(#[trigger] ms@[k], filter) && ms@[k].symbol@.len()
                == 0) ==> (r matches Err(e) && e matches BorsaError::Data(m) && m@
            == "invalid symbol '': symbol must not be empty"@),
{
    let mut out: Vec<SearchResult> = Vec::new();
    let n = ms.len();
    let mut i: usize = 0;
    while i < n
        invariant
            n == ms@.len(),
            i <= n,
            out@.len() == spec_kept_matches(ms@.take(i as int), filter).len(),
            forall|k: int|
                0 <= k < out@.len() ==> spec_result_matches(
                    spec_kept_matches(ms@.take(i as int), filter)[k],
                    #[trigger] out@[k],
                ),
            forall|k: int|
                0 <= k < i && spec_match_kept(#[trigger] ms@[k], filter) ==> ms@[k].symbol@.len()
                    > 0,
        decreases n - i,
    {
        let m = &ms[i];
        let kind = map_kind_from_search_type(m.stock_type.as_str());
        let keep = match filter {
            Some(k) => k == kind,
            None => true,
        };
        proof {
            assert(ms@.take(i + 1).drop_last() =~= ms@.take(i as int));
            assert(ms@.take(i + 1).last() == ms@[i as int]);
        }
        if keep {
            match Symbol::new(m.symbol.as_str()) {
                Ok(symbol) => {
                    let exchange = match Exchange::try_from_str(m.region.as_str()) {
                        Ok(e) => Some(e),
                        Err(_) => None,
                    };
                    out.push(
                        SearchResult { symbol, name: Some(m.name.clone()), exchange, kind },
                    );
                },
                Err(_) => {
                    return Err(
                        BorsaError::Data("invalid symbol '': symbol must not be empty".to_owned()),
                    );
                },
            }
        }
        i = i + 1;
    }
    proof {
        assert(ms@.take(n as int) =~= ms@);
    }
    match limit {
        Some(l) => {
            if out.len() > l {
                out.truncate(l);
            }
        },
        None => {},
    }
    Ok(out)
}

} // verus!
