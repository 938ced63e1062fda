//! Timestamp resolution for upstream series.
//!
//! Each series declares its own timezone name, or none.  A raw timestamp is
//! tried in two formats — date plus time of day, then date only (midnight) —
//! and, when the declared timezone resolves, the naive reading is
//! interpreted as local time in that zone; otherwise it is taken as UTC.
//!
//! What the calendar arithmetic itself returns is delegated to the chrono
//! and chrono-tz crates behind the trusted wrappers below; the policy of
//! which reading applies is verified here.

use vstd::prelude::*;

use chrono::TimeZone;

verus! {

/// What chrono returns for a `%Y-%m-%d %H:%M:%S` text read as UTC: the
/// epoch second, or nothing when the text does not parse.
pub uninterp spec fn utc_datetime_epoch(s: Seq<char>) -> Option<i64>;

/// What chrono returns for a `%Y-%m-%d` text read as UTC midnight.
pub uninterp spec fn utc_date_epoch(s: Seq<char>) -> Option<i64>;

/// What chrono-tz returns for a `%Y-%m-%d %H:%M:%S` text read as local
/// time in the named zone: the epoch second, or nothing when the text does
/// not parse, the zone is unknown, or the local reading is absent or
/// ambiguous.
pub uninterp spec fn local_datetime_epoch(tz: Seq<char>, s: Seq<char>) -> Option<i64>;

/// What chrono-tz returns for a `%Y-%m-%d` text read as local midnight in
/// the named zone.
pub uninterp spec fn local_date_epoch(tz: Seq<char>, s: Seq<char>) -> Option<i64>;

/// Whether chrono-tz knows a timezone of this name.  The zone database is
/// compiled into the crate, so this depends on the name alone.
pub uninterp spec fn known_timezone(name: Seq<char>) -> bool;

/// Relies on `chrono::NaiveDateTime::parse_from_str` with the
/// `%Y-%m-%d %H:%M:%S` format, and on `NaiveDateTime::and_utc` /
/// `DateTime::timestamp`: the parsed civil time read as UTC.  The result
/// depends on the text alone.
#[verifier::external_body]
pub(crate) fn parse_datetime_utc(s: &str) -> (r: Option<i64>)
    ensures
        r == utc_datetime_epoch(s@),
{
    chrono::NaiveDateTime::parse_from_str(s, "%Y-%m-%d %H:%M:%S").ok().map(
        |n| n.and_utc().timestamp(),
    )
}

/// Relies on `chrono::NaiveDate::parse_from_str` with the `%Y-%m-%d`
/// format, `NaiveDate::and_hms_opt` for midnight, and `and_utc` /
/// `timestamp`.  The result depends on the text alone.
#[verifier::external_body]
pub(crate) fn parse_date_utc(s: &str) -> (r: Option<i64>)
    ensures
        r == utc_date_epoch(s@),
{
    chrono::NaiveDate::parse_from_str(s, "%Y-%m-%d").ok().and_then(|d| d.and_hms_opt(0, 0, 0)).map(
        |n| n.and_utc().timestamp(),
    )
}

/// Relies on `chrono_tz::Tz`'s `FromStr`: whether the name is in the
/// compiled-in zone database.
#[verifier::external_body]
pub(crate) fn timezone_exists(name: &str) -> (r: bool)
    ensures
        r == known_timezone(name@),
{
    name.parse::<chrono_tz::Tz>().is_ok()
}

/// Relies on `chrono_tz::Tz`'s `FromStr`,
/// `chrono::NaiveDateTime::parse_from_str` (`%Y-%m-%d %H:%M:%S`), and
/// `TimeZone::from_local_datetime` with `LocalResult::single`: the unique
/// instant the named zone gives that civil time, when there is one.
#[verifier::external_body]
pub(crate) fn parse_datetime_in_zone(tz: &str, s: &str) -> (r: Option<i64>)
    ensures
        r == local_datetime_epoch(tz@, s@),
{
    let zone: chrono_tz::Tz = match tz.parse() {
        Ok(z) => z,
        Err(_) => return None,
    };
    let naive = match chrono::NaiveDateTime::parse_from_str(s, "%Y-%m-%d %H:%M:%S") {
        Ok(n) => n,
        Err(_) => return None,
    };
    zone.from_local_datetime(&naive).single().map(|dt| dt.timestamp())
}

/// Relies on `chrono_tz::Tz`'s `FromStr`,
/// `chrono::NaiveDate::parse_from_str` (`%Y-%m-%d`) with `and_hms_opt`
/// midnight, and `TimeZone::from_local_datetime` with
/// `LocalResult::single`.
#[verifier::external_body]
pub(crate) fn parse_date_in_zone(tz: &str, s: &str) -> (r: Option<i64>)
    ensures
        r == local_date_epoch(tz@, s@),
{
    let zone: chrono_tz::Tz = match tz.parse() {
        Ok(z) => z,
        Err(_) => return None,
    };
    let day = match chrono::NaiveDate::parse_from_str(s, "%Y-%m-%d") {
        Ok(d) => d,
        Err(_) => return None,
    };
    let naive = match day.and_hms_opt(0, 0, 0) {
        Some(n) => n,
        None => return None,
    };
    zone.from_local_datetime(&naive).single().map(|dt| dt.timestamp())
}

/// The view of an optional timezone name.
pub open spec fn spec_tz_view(tz: Option<&str>) -> Option<Seq<char>> {
    match tz {
        Some(z) => Some(z@),
        None => None,
    }
}

/// The zone that actually applies: the declared one when it is present and
/// resolves, none otherwise.
pub open spec fn spec_effective_tz(tz: Option<Seq<char>>) -> Option<Seq<char>> {
    match tz {
        Some(z) => if known_timezone(z) {
            Some(z)
        } else {
            None
        },
        None => None,
    }
}

/// The resolution policy: with an effective zone, try the date-time format
/// as local time, then the date-only format as local midnight; without
/// one, the same two formats read as UTC.
pub open spec fn spec_resolve_timestamp(ts: Seq<char>, tz: Option<Seq<char>>) -> Option<i64> {
    match spec_effective_tz(tz) {
        Some(z) => if local_datetime_epoch(z, ts) is Some {
            local_datetime_epoch(z, ts)
        } else {
            local_date_epoch(z, ts)
        },
        None => if utc_datetime_epoch(ts) is Some {
            utc_datetime_epoch(ts)
        } else {
            utc_date_epoch(ts)
        },
    }
}

/// Resolves one raw timestamp against an optional timezone name.
///
/// An unparseable timestamp yields `None`; callers drop that observation
/// and keep the rest of the series.
pub fn resolve_timestamp(ts: &str, tz: Option<&str>) -> (r: Option<i64>)
    ensures
        r == spec_resolve_timestamp(ts@, spec_tz_view(tz)),
{
    match tz {
        Some(name) => {
            if timezone_exists(name) {
                match parse_datetime_in_zone(name, ts) {
                    Some(v) => Some(v),
                    None => parse_date_in_zone(name, ts),
                }
            } else {
                match parse_datetime_utc(ts) {
                    Some(v) => Some(v),
                    None => parse_date_utc(ts),
                }
            }
        },
        None => match parse_datetime_utc(ts) {
            Some(v) => Some(v),
            None => parse_date_utc(ts),
        },
    }
}

} // verus!
