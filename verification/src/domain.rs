//! The canonical, vendor-neutral domain model this adapter produces:
//! instruments, intervals, candles, quotes, search results and earnings.

use vstd::prelude::*;

use crate::error::BorsaError;
use crate::money::Money;

verus! {

/// The kind of asset an instrument is.
#[derive(Debug, Clone, Copy, PartialEq, Eq, Structural)]
pub enum AssetKind {
    Equity,
    Forex,
    Crypto,
    Fund,
    Index,
    Bond,
    Commodity,
}

/// An enumerated candle granularity.
#[derive(Debug, Clone, Copy, PartialEq, Eq, Structural)]
pub enum Interval {
    I1m,
    I2m,
    I5m,
    I15m,
    I30m,
    I1h,
    I90m,
    D1,
    D5,
    W1,
    M1,
    M3,
}

impl Interval {
    /// The minute count of an intraday granularity, `None` for daily and
    /// coarser ones.
    pub open spec fn spec_minutes(self) -> Option<u32> {
        match self {
            Interval::I1m => Some(1u32),
            Interval::I2m => Some(2u32),
            Interval::I5m => Some(5u32),
            Interval::I15m => Some(15u32),
            Interval::I30m => Some(30u32),
            Interval::I1h => Some(60u32),
            Interval::I90m => Some(90u32),
            _ => None,
        }
    }

    /// Whether this granularity is finer than one day.
    pub open spec fn spec_is_intraday(self) -> bool {
        self.spec_minutes() is Some
    }

    /// The minute count of an intraday granularity.
    pub fn minutes(&self) -> (r: Option<u32>)
        ensures
            r == self.spec_minutes(),
    {
        match self {
            Interval::I1m => Some(1),
            Interval::I2m => Some(2),
            Interval::I5m => Some(5),
            Interval::I15m => Some(15),
            Interval::I30m => Some(30),
            Interval::I1h => Some(60),
            Interval::I90m => Some(90),
            _ => None,
        }
    }

    /// Whether this granularity is finer than one day.
    pub fn is_intraday(&self) -> (r: bool)
        ensures
            r == self.spec_is_intraday(),
    {
        self.minutes().is_some()
    }
}

/// A validated trading symbol: free text, but never empty.
#[derive(Debug, Clone, PartialEq, Eq)]
pub struct Symbol {
    text: String,
}

impl View for Symbol {
    type V = Seq<char>;

    closed spec fn view(&self) -> Seq<char> {
        self.text@
    }
}

impl Symbol {
    /// Validates and wraps a symbol; the empty string is rejected.
    pub fn new(s: &str) -> (r: Result<Symbol, BorsaError>)
        ensures
            s@.len() > 0 ==> (r matches Ok(sym) && sym@ == s@),
            s@.len() == 0 ==> (r matches Err(e) && e matches BorsaError::InvalidArg(m) && m@
                == "symbol must not be empty"@),
    {
        if s.unicode_len() == 0 {
            Err(BorsaError::InvalidArg("symbol must not be empty".to_owned()))
        } else {
            Ok(Symbol { text: s.to_owned() })
        }
    }

    /// The symbol's text.
    pub fn as_str(&self) -> (r: &str)
        ensures
            r@ == self@,
    {
        self.text.as_str()
    }
}

/// A character an exchange code may consist of: an uppercase ASCII letter
/// or a digit.
pub open spec fn spec_is_exchange_char(c: char) -> bool {
    ('A' <= c && c <= 'Z') || ('0' <= c && c <= '9')
}

/// A well-formed exchange code: one to twelve uppercase letters or digits.
pub open spec fn spec_exchange_code_ok(s: Seq<char>) -> bool {
    1 <= s.len() <= 12 && forall|i: int| 0 <= i < s.len() ==> spec_is_exchange_char(#[trigger] s[i])
}

/// A listing exchange, identified by its short code.
#[derive(Debug, Clone, PartialEq, Eq)]
pub struct Exchange {
    code: String,
}

impl View for Exchange {
    type V = Seq<char>;

    closed spec fn view(&self) -> Seq<char> {
        self.code@
    }
}

impl Exchange {
    /// Parses an exchange code; free-form region names are rejected.
    pub fn try_from_str(s: &str) -> (r: Result<Exchange, BorsaError>)
        ensures
            spec_exchange_code_ok(s@) ==> (r matches Ok(e) && e@ == s@),
            !spec_exchange_code_ok(s@) ==> (r matches Err(e) && e matches BorsaError::InvalidArg(m)
                && m@ == "invalid exchange code"@),
    {
        let n = s.unicode_len();
        if n < 1 || n > 12 {
            return Err(BorsaError::InvalidArg("invalid exchange code".to_owned()));
        }
        let mut i: usize = 0;
        while i < n
            invariant
                n == s@.len(),
                1 <= n <= 12,
                i <= n,
                forall|k: int| 0 <= k < i ==> spec_is_exchange_char(#[trigger] s@[k]),
            decreases n - i,
        {
            let c = s.get_char(i);
            let u = c as u32;
            if !((65 <= u && u <= 90) || (48 <= u && u <= 57)) {
                return Err(BorsaError::InvalidArg("invalid exchange code".to_owned()));
            }
            i = i + 1;
        }
        Ok(Exchange { code: s.to_owned() })
    }

    /// The exchange's short code.
    pub fn code(&self) -> (r: &str)
        ensures
            r@ == self@,
    {
        self.code.as_str()
    }
}

/// A tradable asset: a validated symbol plus its asset kind.
#[derive(Debug, Clone, PartialEq, Eq)]
pub struct Instrument {
    symbol: Symbol,
    kind: AssetKind,
}

impl Instrument {
    /// Builds an instrument from a symbol text and a kind.
    pub fn from_symbol(s: &str, kind: AssetKind) -> (r: Result<Instrument, BorsaError>)
        ensures
            s@.len() > 0 ==> (r matches Ok(inst) && inst.spec_symbol() == s@ && inst.spec_kind()
                == kind),
            s@.len() == 0 ==> (r matches Err(e) && e matches BorsaError::InvalidArg(_)),
    {
        match Symbol::new(s) {
            Ok(symbol) => Ok(Instrument { symbol, kind }),
            Err(e) => Err(e),
        }
    }

    /// The instrument's symbol.
    pub fn symbol(&self) -> (r: &Symbol)
        ensures
            r@ == self.spec_symbol(),
    {
        &self.symbol
    }

    /// The symbol's text.
    pub fn symbol_str(&self) -> (r: &str)
        ensures
            r@ == self.spec_symbol(),
    {
        self.symbol.as_str()
    }

    /// The instrument's asset kind.
    pub fn kind(&self) -> (r: AssetKind)
        ensures
            r == self.spec_kind(),
    {
        self.kind
    }

    /// The symbol view, for contracts.
    pub closed spec fn spec_symbol(self) -> Seq<char> {
        self.symbol@
    }

    /// The kind, for contracts.
    pub closed spec fn spec_kind(self) -> AssetKind {
        self.kind
    }
}

/// One OHLCV observation at one instant (UTC seconds since the epoch).
#[derive(Debug, Clone, Copy, PartialEq)]
pub struct Candle {
    /// The observation instant, UTC seconds since the epoch.
    pub ts: i64,
    pub open: Money,
    pub high: Money,
    pub low: Money,
    /// The chosen close: the adjusted close when the source carried one,
    /// the raw close otherwise.
    pub close: Money,
    /// An unadjusted close, when kept separately.  This adapter never
    /// populates it.
    pub close_unadj: Option<Money>,
    /// Traded volume, absent for series that report none.
    pub volume: Option<u64>,
}

/// A corporate action attached to a history response.
#[derive(Debug, Clone, Copy, PartialEq)]
pub enum Action {
    /// A dividend of `amount` going ex at `ts`.
    Dividend { ts: i64, amount: Money },
}

/// Metadata resolved for a whole series.
#[derive(Debug, Clone, PartialEq)]
pub struct HistoryMeta {
    /// The IANA timezone name the series declared, when it resolved.
    pub timezone: Option<String>,
    /// A fixed UTC offset, when the source reports one instead.  This
    /// adapter never populates it.
    pub utc_offset_seconds: Option<i32>,
}

/// An ordered candle series with its corporate actions.
#[derive(Debug, Clone, PartialEq)]
pub struct HistoryResponse {
    /// Candles in ascending instant order.
    pub candles: Vec<Candle>,
    /// Corporate actions, in source order.
    pub actions: Vec<Action>,
    /// Whether the closes reflect dividend/split adjustment anywhere in the
    /// series.
    pub adjusted: bool,
    /// Series metadata, when any was resolved.
    pub meta: Option<HistoryMeta>,
}

/// A point-in-time quote for one instrument.
#[derive(Debug, Clone, PartialEq)]
pub struct Quote {
    pub symbol: Symbol,
    /// A display name; this vendor reports none.
    pub shortname: Option<String>,
    pub price: Option<Money>,
    pub previous_close: Option<Money>,
    /// The listing exchange; this vendor reports none on quotes.
    pub exchange: Option<Exchange>,
    /// The market session state; this vendor reports none.
    pub market_state: Option<String>,
}

/// One search hit.
#[derive(Debug, Clone, PartialEq)]
pub struct SearchResult {
    pub symbol: Symbol,
    pub name: Option<String>,
    pub exchange: Option<Exchange>,
    /// The asset kind classified from the vendor's security-type text.
    pub kind: AssetKind,
}

/// The bounded, possibly filtered sequence of search hits.
#[derive(Debug, Clone, PartialEq)]
pub struct SearchResponse {
    pub results: Vec<SearchResult>,
}

/// What a caller asks a symbol search for.
#[derive(Debug, Clone, PartialEq)]
pub struct SearchRequest {
    /// The free-text query.
    pub query: String,
    /// Keep only hits classified as this kind, when present.
    pub kind: Option<AssetKind>,
    /// Return at most this many hits, when present.
    pub limit: Option<usize>,
}

impl SearchRequest {
    /// A search for `query` with no kind filter and no limit.
    pub fn new(query: &str) -> (r: SearchRequest)
        ensures
            r.query@ == query@,
            r.kind is None,
            r.limit is None,
    {
        SearchRequest { query: query.to_owned(), kind: None, limit: None }
    }

    /// The same search restricted to one asset kind.
    pub fn with_kind(self, kind: AssetKind) -> (r: SearchRequest)
        ensures
            r.query == self.query,
            r.kind == Some(kind),
            r.limit == self.limit,
    {
        SearchRequest { kind: Some(kind), ..self }
    }

    /// The same search capped at `limit` hits.
    pub fn with_limit(self, limit: usize) -> (r: SearchRequest)
        ensures
            r.query == self.query,
            r.kind == self.kind,
            r.limit == Some(limit),
    {
        SearchRequest { limit: Some(limit), ..self }
    }
}

/// What a caller asks a history fetch for: a granularity and whether
/// dividend/split-adjusted prices are wanted.
#[derive(Debug, Clone, Copy, PartialEq, Eq, Structural)]
pub struct HistoryRequest {
    interval: Interval,
    adjust: bool,
}

impl HistoryRequest {
    /// Builds a request for one granularity.
    pub fn new(interval: Interval, adjust: bool) -> (r: HistoryRequest)
        ensures
            r.spec_interval() == interval,
            r.spec_adjust() == adjust,
    {
        HistoryRequest { interval, adjust }
    }

    /// The requested granularity.
    pub fn interval(&self) -> (r: Interval)
        ensures
            r == self.spec_interval(),
    {
        self.interval
    }

    /// Whether adjusted prices are requested.
    pub fn auto_adjust(&self) -> (r: bool)
        ensures
            r == self.spec_adjust(),
    {
        self.adjust
    }

    /// The granularity, for contracts.
    pub closed spec fn spec_interval(self) -> Interval {
        self.interval
    }

    /// The adjustment flag, for contracts.
    pub closed spec fn spec_adjust(self) -> bool {
        self.adjust
    }
}

/// A fiscal reporting period.
#[derive(Debug, Clone, Copy, PartialEq, Eq, Structural)]
pub enum Period {
    /// A calendar year.
    Year { year: i32 },
    /// A quarter of a year, 1 through 4.
    Quarter { year: i32, quarter: u8 },
    /// An explicit calendar date.
    Date { year: i32, month: u8, day: u8 },
}

/// One yearly earnings record.
#[derive(Debug, Clone, Copy, PartialEq)]
pub struct EarningsYear {
    pub year: i32,
    /// Revenue; this vendor's earnings endpoint reports none.
    pub revenue: Option<Money>,
    /// Earnings; this vendor's earnings endpoint reports none.
    pub earnings: Option<Money>,
}

/// One quarterly earnings record.
#[derive(Debug, Clone, Copy, PartialEq)]
pub struct EarningsQuarter {
    pub period: Period,
    /// Revenue; this vendor's earnings endpoint reports none.
    pub revenue: Option<Money>,
    /// Earnings; this vendor's earnings endpoint reports none.
    pub earnings: Option<Money>,
}

/// One quarterly earnings-per-share record.
#[derive(Debug, Clone, Copy, PartialEq)]
pub struct EarningsQuarterEps {
    pub period: Period,
    pub actual: Option<Money>,
    pub estimate: Option<Money>,
}

/// The earnings history of one instrument.
#[derive(Debug, Clone, PartialEq)]
pub struct Earnings {
    pub yearly: Vec<EarningsYear>,
    pub quarterly: Vec<EarningsQuarter>,
    pub quarterly_eps: Vec<EarningsQuarterEps>,
}

} // verus!
