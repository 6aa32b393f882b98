//! Instants as plain values, the calls into `chrono` that read and write
//! them, and the system clock.

use vstd::prelude::*;
use chrono::{DateTime, Datelike, NaiveDate, Utc};
use std::time::{Duration, SystemTime, UNIX_EPOCH};

verus! {

/// An instant: whole seconds since the Unix epoch (UTC) and the
/// nanoseconds past them, as `chrono::DateTime<Utc>` holds it (a leap
/// second shows as `nanos >= 1_000_000_000`). Instants order by
/// `(secs, nanos)`, as `DateTime` does.
#[derive(Clone, Copy, Debug, PartialEq, Eq, Structural)]
pub struct Timestamp {
    pub secs: i64,
    pub nanos: u32,
}

/// `a` is strictly earlier than `b`.
pub open spec fn earlier(a: Timestamp, b: Timestamp) -> bool {
    a.secs < b.secs || (a.secs == b.secs && a.nanos < b.nanos)
}

impl Timestamp {
    /// `self` is strictly earlier than `other`.
    pub fn is_before(&self, other: &Timestamp) -> (b: bool)
        ensures
            b == earlier(*self, *other),
    {
        self.secs < other.secs || (self.secs == other.secs && self.nanos < other.nanos)
    }
}

/// An instant that chrono has and that RFC 3339 text reads back exactly:
/// years 0000 to 9999 (others get a sign that the parser refuses), and
/// nanoseconds under one second, or under two in the last second of a
/// minute (a leap second, written as `:60`).
pub open spec fn writable(t: Timestamp) -> bool {
    &&& -62167219200 <= t.secs <= 253402300799
    &&& (t.nanos < 1_000_000_000 || (t.nanos < 2_000_000_000 && t.secs % 60 == 59))
}

/// The instant that `DateTime::parse_from_rfc3339` reads from `text`, as
/// seconds and nanoseconds in UTC, or `None` when it rejects the text.
pub uninterp spec fn rfc3339_instant(text: Seq<char>) -> Option<(i64, u32)>;

/// The day number (`num_days_from_ce`: 0001-01-01 is day 1) of the date
/// that `NaiveDate::parse_from_str(text, "%Y-%m-%d")` reads, or `None` when
/// it rejects the text.
pub uninterp spec fn ce_day(text: Seq<char>) -> Option<i32>;

/// `DateTime::<Utc>::to_rfc3339` of the instant, or `None` when chrono has
/// no `DateTime` for it (`DateTime::from_timestamp` gives `None`).
pub uninterp spec fn rfc3339_text(secs: i64, nanos: u32) -> Option<Seq<char>>;

/// The UTC calendar date of the instant as `format("%Y-%m-%d")` writes it,
/// or `None` when chrono has no `DateTime` for it.
pub uninterp spec fn utc_date_text(secs: i64, nanos: u32) -> Option<Seq<char>>;

/// Calls `DateTime::parse_from_rfc3339` and converts what it reads to UTC.
/// The contract only names the result: the same text always reads the same.
#[verifier::external_body]
pub(crate) fn parse_rfc3339(raw: &str) -> (r: Option<Timestamp>)
    ensures
        r matches Some(t) ==> rfc3339_instant(raw@) == Some((t.secs, t.nanos)),
        r is None ==> rfc3339_instant(raw@) is None,
{
    match DateTime::parse_from_rfc3339(raw) {
        Ok(dt) => {
            let utc = dt.with_timezone(&Utc);
            Some(Timestamp { secs: utc.timestamp(), nanos: utc.timestamp_subsec_nanos() })
        },
        Err(_) => None,
    }
}

/// Calls `NaiveDate::parse_from_str(raw, "%Y-%m-%d")` and hands back the
/// date's `num_days_from_ce`. The contract only names the result.
#[verifier::external_body]
fn parse_ce_day(raw: &str) -> (r: Option<i32>)
    ensures
        r == ce_day(raw@),
{
    match NaiveDate::parse_from_str(raw, "%Y-%m-%d") {
        Ok(date) => Some(date.num_days_from_ce()),
        Err(_) => None,
    }
}

/// Day number (counted as `ce_day` counts) of 1970-01-01.
pub const EPOCH_CE_DAY: i64 = 719163;

/// Midnight UTC at the start of day number `day`.
pub open spec fn midnight(day: i32) -> Timestamp {
    Timestamp { secs: ((day - EPOCH_CE_DAY) * 86400) as i64, nanos: 0 }
}

/// Midnight UTC of the `YYYY-MM-DD` date in `raw`, or `None` when `raw`
/// is no such date.
pub fn parse_ymd(raw: &str) -> (r: Option<Timestamp>)
    ensures
        r == (match ce_day(raw@) {
            Some(d) => Some(midnight(d)),
            None => None,
        }),
{
    match parse_ce_day(raw) {
        Some(day) => {
            let days: i64 = day as i64 - EPOCH_CE_DAY;
            assert(-2147483648 - 719163 <= days <= 2147483647);
            Some(Timestamp { secs: days * 86400, nanos: 0 })
        },
        None => None,
    }
}

/// Calls `DateTime::from_timestamp` and `to_rfc3339` on the instant. The
/// contract names the result, and claims what chrono's `from_timestamp`,
/// `write_rfc3339` and RFC 3339 parser show: for an instant of
/// [`writable`] (years 0000 to 9999; a leap second is written as `:60` and
/// read back as second 59 plus one second of nanoseconds) there is a text,
/// and `parse_from_rfc3339` reads the same instant back from it. Nothing
/// is claimed of other instants.
#[verifier::external_body]
pub(crate) fn format_rfc3339(t: Timestamp) -> (r: Option<String>)
    ensures
        r matches Some(s) ==> rfc3339_text(t.secs, t.nanos) == Some(s@),
        r is None ==> rfc3339_text(t.secs, t.nanos) is None,
        r is Some || !writable(t),
        r matches Some(s) ==> (writable(t) ==> rfc3339_instant(s@) == Some((t.secs, t.nanos))),
{
    match DateTime::from_timestamp(t.secs, t.nanos) {
        Some(dt) => Some(dt.to_rfc3339()),
        None => None,
    }
}

/// Calls `DateTime::from_timestamp` and `format("%Y-%m-%d")` on the
/// instant. The contract names the result, and claims what chrono's
/// `from_timestamp` shows: an instant in years 0000 to 9999 with valid
/// nanoseconds (see [`writable`]) has a date.
#[verifier::external_body]
pub(crate) fn format_date(t: Timestamp) -> (r: Option<String>)
    ensures
        r matches Some(s) ==> utc_date_text(t.secs, t.nanos) == Some(s@),
        r is None ==> utc_date_text(t.secs, t.nanos) is None,
        r is Some || !writable(t),
{
    match DateTime::from_timestamp(t.secs, t.nanos) {
        Some(dt) => Some(dt.format("%Y-%m-%d").to_string()),
        None => None,
    }
}

/// `std::time::SystemTime`, as the system clock gives it.
#[verifier::external_type_specification]
#[verifier::external_body]
pub struct ExSystemTime(SystemTime);

/// Calls `SystemTime::now`. Nothing is promised of the instant: it is the
/// machine's.
#[verifier::external_body]
fn system_now() -> (t: SystemTime) {
    SystemTime::now()
}

/// Calls `SystemTime::duration_since(UNIX_EPOCH)`: how long after the
/// epoch `t` is, or `None` when `t` lies before it (the call's error).
/// Nothing is promised of the length: it is the clock's.
#[verifier::external_body]
fn since_unix_epoch(t: &SystemTime) -> (r: Option<Duration>) {
    match t.duration_since(UNIX_EPOCH) {
        Ok(d) => Some(d),
        Err(_) => None,
    }
}

/// `Duration::as_secs`: the whole seconds of the duration.
pub assume_specification[ core::time::Duration::as_secs ](d: &core::time::Duration) -> u64;

/// `Duration::subsec_nanos`: the nanoseconds past the whole seconds, which
/// std documents as less than one second.
pub assume_specification[ core::time::Duration::subsec_nanos ](d: &core::time::Duration) -> (n: u32)
    ensures
        n < 1_000_000_000,
;

/// The instant `secs` seconds and `nanos` nanoseconds after the Unix epoch,
/// or `None` when `secs` does not fit the `i64` of a [`Timestamp`].
pub fn from_epoch(secs: u64, nanos: u32) -> (r: Option<Timestamp>)
    ensures
        r == (if secs <= i64::MAX {
            Some(Timestamp { secs: secs as i64, nanos })
        } else {
            None
        }),
{
    if secs <= i64::MAX as u64 {
        Some(Timestamp { secs: secs as i64, nanos })
    } else {
        None
    }
}

/// The current instant of the system clock (see [`from_epoch`]), or
/// `None` when the clock reads before the Unix epoch or too far after it
/// for an `i64` of seconds. Which instant it is, is the machine's.
pub fn now() -> (r: Option<Timestamp>)
    ensures
        r matches Some(t) ==> 0 <= t.secs && t.nanos < 1_000_000_000,
{
    let t = system_now();
    match since_unix_epoch(&t) {
        Some(d) => from_epoch(d.as_secs(), d.subsec_nanos()),
        None => None,
    }
}

} // verus!
