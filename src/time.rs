//! Calendar renderings of timestamps, computed by chrono.
use vstd::prelude::*;
use crate::model::Timestamp;

verus! {

/// The UTC calendar month of an instant, as `YYYY-MM`.
pub uninterp spec fn utc_month_text(secs: i64) -> Seq<char>;

/// The UTC calendar day of an instant, as `YYYY-MM-DD`.
pub uninterp spec fn utc_date_text(secs: i64) -> Seq<char>;

/// The RFC 3339 rendering of an instant in UTC.
pub uninterp spec fn rfc3339_text(secs: i64, nanos: u32) -> Seq<char>;

/// The seconds since the Unix epoch of an RFC 3339 date-time.
pub uninterp spec fn rfc3339_secs_of(s: Seq<char>) -> i64;

/// Whether a string is an RFC 3339 date-time.
pub uninterp spec fn rfc3339_valid(s: Seq<char>) -> bool;

/// Relies on chrono's `DateTime::from_timestamp` and `format("%Y-%m")`: the
/// month depends on the seconds alone.
#[verifier::external_body]
pub(crate) fn month_key(ts: &Timestamp) -> (r: String)
    requires
        ts.wf(),
    ensures
        r@ == utc_month_text(ts.secs),
{
    match chrono::DateTime::from_timestamp(ts.secs, 0) {
        Some(d) => d.format("%Y-%m").to_string(),
        None => String::new(),
    }
}

/// Relies on chrono's `DateTime::from_timestamp` and `format("%Y-%m-%d")`:
/// the day depends on the seconds alone.
#[verifier::external_body]
pub(crate) fn day_key(ts: &Timestamp) -> (r: String)
    requires
        ts.wf(),
    ensures
        r@ == utc_date_text(ts.secs),
{
    match chrono::DateTime::from_timestamp(ts.secs, 0) {
        Some(d) => d.format("%Y-%m-%d").to_string(),
        None => String::new(),
    }
}

/// Relies on chrono's `DateTime::from_timestamp` and `to_rfc3339`.
#[verifier::external_body]
pub(crate) fn rfc3339(ts: &Timestamp) -> (r: String)
    requires
        ts.wf(),
    ensures
        r@ == rfc3339_text(ts.secs, ts.nanos),
{
    match chrono::DateTime::from_timestamp(ts.secs, ts.nanos) {
        Some(d) => d.to_rfc3339(),
        None => String::new(),
    }
}

/// Relies on chrono's `DateTime::parse_from_rfc3339`: whether it accepts the
/// string depends on the string alone.
#[verifier::external_body]
pub(crate) fn is_rfc3339(s: &str) -> (r: bool)
    ensures
        r == rfc3339_valid(s@),
{
    chrono::DateTime::parse_from_rfc3339(s).is_ok()
}

/// Relies on chrono's `DateTime::parse_from_rfc3339` and `timestamp`: the
/// instant a valid string denotes depends on the string alone.
#[verifier::external_body]
pub(crate) fn rfc3339_secs(s: &str) -> (r: i64)
    requires
        rfc3339_valid(s@),
    ensures
        r == rfc3339_secs_of(s@),
{
    match chrono::DateTime::parse_from_rfc3339(s) {
        Ok(d) => d.timestamp(),
        Err(_) => 0,
    }
}

/// Number of seconds in a day.
pub const SECS_PER_DAY: i64 = 86400;

/// The instant `days` whole days before `now`.
pub open spec fn days_before_spec(now: Timestamp, days: u32) -> Timestamp {
    Timestamp { secs: (now.secs - days * SECS_PER_DAY) as i64, nanos: now.nanos }
}

/// The instant `days` whole days before `now`.
pub fn days_before(now: &Timestamp, days: u32) -> (r: Timestamp)
    requires
        now.wf(),
    ensures
        r.secs == now.secs - days * SECS_PER_DAY,
        r.nanos == now.nanos,
        r == days_before_spec(*now, days),
{
    Timestamp { secs: now.secs - (days as i64) * SECS_PER_DAY, nanos: now.nanos }
}

} // verus!
