//! Dates and times in the service's time zone. The calendar arithmetic is
//! chrono's; the choices made when a zone is unknown or a local time is
//! ambiguous or missing are made here.
use chrono::{Datelike, NaiveDateTime, TimeZone};
use chrono_tz::Tz;
use std::fmt::Write;
use vstd::prelude::*;

verus! {

/// The zone used when the configured one is unknown.
pub const DEFAULT_TZ: &'static str = "Asia/Tokyo";

/// How a local date-time reads as instants (Unix seconds) in a zone.
#[derive(PartialEq, Eq, Structural, Clone, Copy, Debug)]
pub enum LocalTime {
    /// The text did not match the format.
    Unparsed,
    /// Exactly one instant.
    Single(i64),
    /// Two instants (a clock set back); earlier, then later.
    Ambiguous(i64, i64),
    /// No instant (a clock set forward).
    Skipped,
}

/// How `datetime`, read with `fmt`, falls in `zone`; none for an unknown zone.
pub uninterp spec fn local_time_of(zone: Seq<char>, datetime: Seq<char>, fmt: Seq<char>) -> Option<LocalTime>;

/// Relies on `Tz::from_str`, `NaiveDateTime::parse_from_str` and
/// `TimeZone::from_local_datetime`.
#[verifier::external_body]
fn local_time_in(zone: &str, datetime: &str, fmt: &str) -> (r: Option<LocalTime>)
    ensures
        r == local_time_of(zone@, datetime@, fmt@),
{
    let tz: Tz = zone.parse().ok()?;
    let Ok(naive) = NaiveDateTime::parse_from_str(datetime, fmt) else { return Some(LocalTime::Unparsed) };
    Some(match tz.from_local_datetime(&naive) {
        chrono::LocalResult::Single(v) => LocalTime::Single(v.timestamp()),
        chrono::LocalResult::Ambiguous(a, b) => LocalTime::Ambiguous(a.timestamp(), b.timestamp()),
        chrono::LocalResult::None => LocalTime::Skipped,
    })
}

/// How the midnight that starts the day of instant `now` falls in `zone`;
/// none for an unknown zone.
pub uninterp spec fn midnight_of(zone: Seq<char>, now: i64) -> Option<LocalTime>;

/// Relies on `Tz::from_str`, `DateTime::from_timestamp`, `with_timezone`,
/// `date_naive` and `TimeZone::with_ymd_and_hms`.
#[verifier::external_body]
fn midnight_in(zone: &str, now: i64) -> (r: Option<LocalTime>)
    ensures
        r == midnight_of(zone@, now),
{
    let tz: Tz = zone.parse().ok()?;
    let date = chrono::DateTime::from_timestamp(now, 0)?.with_timezone(&tz).date_naive();
    Some(match tz.with_ymd_and_hms(date.year(), date.month(), date.day(), 0, 0, 0) {
        chrono::LocalResult::Single(v) => LocalTime::Single(v.timestamp()),
        chrono::LocalResult::Ambiguous(a, b) => LocalTime::Ambiguous(a.timestamp(), b.timestamp()),
        chrono::LocalResult::None => LocalTime::Skipped,
    })
}

/// Instant `timestamp` written with `pattern` in `zone`; none for an unknown
/// zone, an instant out of range, or a pattern that cannot be written.
pub uninterp spec fn zone_text_of(zone: Seq<char>, timestamp: i64, pattern: Seq<char>) -> Option<Seq<char>>;

/// Relies on `Tz::from_str`, `DateTime::from_timestamp`, `with_timezone` and
/// `format`, written out with `fmt::Write`, which reports a pattern that
/// cannot be written as an error.
#[verifier::external_body]
fn format_in(zone: &str, timestamp: i64, pattern: &str) -> (r: Option<String>)
    ensures
        match r {
            Some(s) => zone_text_of(zone@, timestamp, pattern@) == Some(s@),
            None => zone_text_of(zone@, timestamp, pattern@) is None,
        },
{
    let tz: Tz = zone.parse().ok()?;
    let utc = chrono::DateTime::from_timestamp(timestamp, 0)?;
    let mut out = String::new();
    write!(out, "{}", utc.with_timezone(&tz).format(pattern)).ok()?;
    Some(out)
}

/// The Unix time of `datetime` read with `fmt` as UTC; none if it does not
/// match.
pub uninterp spec fn utc_timestamp_of(datetime: Seq<char>, fmt: Seq<char>) -> Option<i64>;

/// Relies on `NaiveDateTime::parse_from_str` and `and_utc`.
#[verifier::external_body]
fn utc_timestamp(datetime: &str, fmt: &str) -> (r: Option<i64>)
    ensures
        r == utc_timestamp_of(datetime@, fmt@),
{
    NaiveDateTime::parse_from_str(datetime, fmt).ok().map(|v| v.and_utc().timestamp())
}

/// The instant chosen for a local time: the only one, the later of two, or
/// `fallback` when there is none.
pub open spec fn chosen(t: LocalTime, fallback: i64) -> i64 {
    match t {
        LocalTime::Single(v) => v,
        LocalTime::Ambiguous(_, later) => later,
        _ => fallback,
    }
}

/// Picks the instant of a local time: the only one, the later of two, or
/// `fallback`.
pub fn choose_instant(t: LocalTime, fallback: i64) -> (r: i64)
    ensures
        r == chosen(t, fallback),
{
    match t {
        LocalTime::Single(v) => v,
        LocalTime::Ambiguous(_, later) => later,
        _ => fallback,
    }
}

/// `zone` if it is known, else the default zone.
pub open spec fn effective<T>(in_zone: Option<T>, in_default: Option<T>) -> Option<T> {
    match in_zone {
        Some(v) => Some(v),
        None => in_default,
    }
}

/// The Unix time of the local date-time `datetime` (read with `fmt`) in
/// `zone`, or in the default zone when `zone` is unknown; 0 when it does not
/// parse or does not exist there.
pub fn get_timestamp_from_local(datetime: &str, fmt: &str, zone: &str) -> (r: i64)
    ensures
        r == match effective(local_time_of(zone@, datetime@, fmt@), local_time_of(DEFAULT_TZ@, datetime@, fmt@)) {
            Some(t) => chosen(t, 0),
            None => 0,
        },
{
    let t = match local_time_in(zone, datetime, fmt) {
        Some(t) => Some(t),
        None => local_time_in(DEFAULT_TZ, datetime, fmt),
    };
    match t {
        Some(t) => choose_instant(t, 0),
        None => 0,
    }
}

/// The Unix time of `datetime` (read with `fmt`) as UTC; 0 when it does not
/// parse.
pub fn get_timestamp_from_utc(datetime: &str, fmt: &str) -> (r: i64)
    ensures
        r == match utc_timestamp_of(datetime@, fmt@) {
            Some(t) => t,
            None => 0,
        },
{
    match utc_timestamp(datetime, fmt) {
        Some(t) => t,
        None => 0,
    }
}

/// The Unix time at which the day of instant `now` starts in `zone` (or the
/// default zone when `zone` is unknown); `now` itself when that midnight does
/// not exist or cannot be computed.
pub fn start_of_today(zone: &str, now: i64) -> (r: i64)
    ensures
        r == match effective(midnight_of(zone@, now), midnight_of(DEFAULT_TZ@, now)) {
            Some(t) => chosen(t, now),
            None => now,
        },
{
    let t = match midnight_in(zone, now) {
        Some(t) => Some(t),
        None => midnight_in(DEFAULT_TZ, now),
    };
    match t {
        Some(t) => choose_instant(t, now),
        None => now,
    }
}

fn formatted(timestamp: i64, zone: &str, pattern: &str) -> (r: String)
    ensures
        r@ == match effective(zone_text_of(zone@, timestamp, pattern@), zone_text_of(DEFAULT_TZ@, timestamp, pattern@)) {
            Some(s) => s,
            None => match effective(zone_text_of(zone@, 0, pattern@), zone_text_of(DEFAULT_TZ@, 0, pattern@)) {
                Some(s) => s,
                None => Seq::empty(),
            },
        },
{
    match format_in(zone, timestamp, pattern) {
        Some(s) => s,
        None => match format_in(DEFAULT_TZ, timestamp, pattern) {
            Some(s) => s,
            None => match format_in(zone, 0, pattern) {
                Some(s) => s,
                None => match format_in(DEFAULT_TZ, 0, pattern) {
                    Some(s) => s,
                    None => String::new(),
                },
            },
        },
    }
}

/// Instant `timestamp` as `%Y-%m-%d %H:%M:%S` in `zone` (or the default
/// zone); an instant out of range reads as the epoch.
pub fn get_local_datetime_formarted(timestamp: i64, zone: &str) -> (r: String)
    ensures
        r@ == match effective(
            zone_text_of(zone@, timestamp, "%Y-%m-%d %H:%M:%S"@),
            zone_text_of(DEFAULT_TZ@, timestamp, "%Y-%m-%d %H:%M:%S"@),
        ) {
            Some(s) => s,
            None => match effective(
                zone_text_of(zone@, 0, "%Y-%m-%d %H:%M:%S"@),
                zone_text_of(DEFAULT_TZ@, 0, "%Y-%m-%d %H:%M:%S"@),
            ) {
                Some(s) => s,
                None => Seq::empty(),
            },
        },
{
    formatted(timestamp, zone, "%Y-%m-%d %H:%M:%S")
}

/// Instant `timestamp` as `%Y-%m-%d` in `zone` (or the default zone); an
/// instant out of range reads as the epoch.
pub fn get_local_date_formarted(timestamp: i64, zone: &str) -> (r: String)
    ensures
        r@ == match effective(
            zone_text_of(zone@, timestamp, "%Y-%m-%d"@),
            zone_text_of(DEFAULT_TZ@, timestamp, "%Y-%m-%d"@),
        ) {
            Some(s) => s,
            None => match effective(zone_text_of(zone@, 0, "%Y-%m-%d"@), zone_text_of(DEFAULT_TZ@, 0, "%Y-%m-%d"@)) {
                Some(s) => s,
                None => Seq::empty(),
            },
        },
{
    formatted(timestamp, zone, "%Y-%m-%d")
}

} // verus!
