//! Splitting a currency-style compound symbol into its base and quote.
//!
//! The vendor's pair endpoints take the two currencies separately, but an
//! instrument carries one free-text symbol; this parser demands an explicit
//! delimiter (`EUR/USD`, `BTC-USDT`) rather than guessing a split.

use vstd::prelude::*;

use crate::error::BorsaError;
use crate::text::{find_char, spec_find};

verus! {

/// Where the symbol splits: the first `/` when one occurs anywhere (the
/// slash takes priority), else the first `-`, else nowhere.
pub open spec fn spec_delim_pos(s: Seq<char>) -> Option<int> {
    if spec_find(s, '/') < s.len() {
        Some(spec_find(s, '/'))
    } else if spec_find(s, '-') < s.len() {
        Some(spec_find(s, '-'))
    } else {
        None
    }
}

/// A symbol splits into a pair exactly when it has a delimiter with
/// non-empty text on both sides.
pub open spec fn spec_pair_ok(s: Seq<char>) -> bool {
    spec_delim_pos(s) matches Some(p) && 1 <= p && p + 1 < s.len()
}

/// Splits `symbol` at its delimiter into `(base, quote)`.
///
/// Exactly one of `/` or `-` is accepted, the slash taking priority; both
/// sides must be non-empty.  A symbol without a delimiter, or with an empty
/// side, is rejected with `InvalidArg` naming the required `BASE/QUOTE`
/// shape.
pub fn parse_forex_pair(symbol: &str) -> (r: Result<(String, String), BorsaError>)
    ensures
        spec_pair_ok(symbol@) ==> (r matches Ok(pair) && spec_delim_pos(symbol@) matches Some(p)
            && pair.0@ == symbol@.take(p) && pair.1@ == symbol@.skip(p + 1)),
        !spec_pair_ok(symbol@) && spec_delim_pos(symbol@) is Some ==> (r matches Err(e)
            && e matches BorsaError::InvalidArg(m) && m@ == "Invalid forex pair format: '"@
            + symbol@ + "' - empty base or quote currency"@),
        spec_delim_pos(symbol@) is None ==> (r matches Err(e) && e matches BorsaError::InvalidArg(m)
            && m@ == "Forex pair for AlphaVantage must be in 'BASE/QUOTE' format, got: '"@
            + symbol@ + "'"@),
{
    let n = symbol.unicode_len();
    let slash = find_char(symbol, '/');
    let pos = if slash < n {
        slash
    } else {
        let dash = find_char(symbol, '-');
        if dash < n {
            dash
        } else {
            let mut msg = String::new();
            msg.append("Forex pair for AlphaVantage must be in 'BASE/QUOTE' format, got: '");
            msg.append(symbol);
            msg.append("'");
            return Err(BorsaError::InvalidArg(msg));
        }
    };
    if pos == 0 || pos + 1 == n {
        let mut msg = String::new();
        msg.append("Invalid forex pair format: '");
        msg.append(symbol);
        msg.append("' - empty base or quote currency");
        return Err(BorsaError::InvalidArg(msg));
    }
    let base = symbol.substring_char(0, pos).to_owned();
    let quote = symbol.substring_char(pos + 1, n).to_owned();
    Ok((base, quote))
}

} // verus!
