//! Alpha Vantage market-data adapter core: request translation and response
//! normalization, with verified contracts.
//!
//! The adapter converts vendor-neutral requests (instrument, interval,
//! adjustment flag) into the upstream endpoint selection, and converts the
//! upstream time-series/quote/search/earnings payloads back into the
//! canonical candle, quote, search-result and earnings model. Upstream error
//! strings are classified into a canonical error taxonomy. The HTTP
//! transport itself lives outside this library; it hands the normalizers
//! plain values and finishes each call through the verified tails in
//! [`connector`].

pub mod connector;
pub mod decimal;
pub mod domain;
pub mod earnings;
pub mod error;
pub mod money;
pub mod normalize;
pub mod pair;
pub mod text;
pub mod timestamp;
pub mod translate;

use vstd::prelude::*;

verus! {

/// The connector identity preserved in classified errors.
pub const CONNECTOR_NAME: &'static str = "borsa-alphavantage";

/// The vendor name this adapter wraps.
pub const VENDOR_NAME: &'static str = "Alpha Vantage";

} // verus!
