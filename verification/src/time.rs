//! Wall-clock instants in UTC, as plain integers.
use chrono::{DateTime, SecondsFormat, Utc};
use vstd::prelude::*;

verus! {

/// An instant: whole seconds since the Unix epoch plus the nanoseconds
/// within that second.
#[derive(Debug, Clone, Copy, PartialEq, Eq, Structural)]
pub struct UtcTime {
    pub secs: i64,
    pub nanos: u32,
}

/// Nanoseconds since the Unix epoch.
pub open spec fn nanos_of(t: UtcTime) -> int {
    t.secs * 1_000_000_000 + t.nanos
}

/// One second, in nanoseconds.
pub open spec fn second() -> int {
    1_000_000_000
}

/// Latest whole second chrono can hold: 262142-12-31T23:59:59Z.
pub const MAX_TIMESTAMP: i64 = 8210266876799;

/// Earliest second chrono can hold: -262143-01-01T00:00:00Z.
pub const MIN_TIMESTAMP: i64 = -8334601315200;

/// An instant chrono's `DateTime<Utc>` can hold (outside leap seconds).
pub open spec fn representable(t: UtcTime) -> bool {
    MIN_TIMESTAMP <= t.secs <= MAX_TIMESTAMP && t.nanos < 1_000_000_000
}

/// The current time (chrono `Utc::now`). Of the value only its range is
/// claimed: `Utc::now` builds it with `DateTime::from_timestamp` from the
/// whole seconds and the sub-second nanoseconds of the system clock.
#[verifier::external_body]
pub(crate) fn now_utc() -> (t: UtcTime)
    ensures
        representable(t),
{
    let now = Utc::now();
    UtcTime { secs: now.timestamp(), nanos: now.timestamp_subsec_nanos() }
}

/// Whether `a` is later than `b` (chrono orders instants by second, then
/// by fraction).
pub open spec fn later(a: UtcTime, b: UtcTime) -> bool {
    a.secs > b.secs || (a.secs == b.secs && a.nanos > b.nanos)
}

pub fn is_after(a: UtcTime, b: UtcTime) -> (r: bool)
    ensures
        r == later(a, b),
{
    a.secs > b.secs || (a.secs == b.secs && a.nanos > b.nanos)
}

/// `t` moved by `secs` seconds (chrono `DateTime + TimeDelta::seconds`,
/// which panics when the result leaves chrono's range).
pub fn plus_seconds(t: UtcTime, secs: i64) -> (r: UtcTime)
    requires
        representable(t),
        MIN_TIMESTAMP <= t.secs + secs <= MAX_TIMESTAMP,
    ensures
        r == (UtcTime { secs: (t.secs + secs) as i64, nanos: t.nanos }),
        representable(r),
{
    UtcTime { secs: t.secs + secs, nanos: t.nanos }
}

/// RFC 3339 text of an instant in UTC with a `Z` suffix and as many
/// fraction digits as needed (0, 3, 6 or 9).
pub uninterp spec fn rfc3339(secs: i64, nanos: u32) -> Seq<char>;

/// chrono's `to_rfc3339_opts(SecondsFormat::AutoSi, true)`, the text serde
/// writes for a `DateTime<Utc>`.
#[verifier::external_body]
pub(crate) fn rfc3339_text(t: UtcTime) -> (r: String)
    requires
        representable(t),
    ensures
        r@ == rfc3339(t.secs, t.nanos),
{
    match DateTime::from_timestamp(t.secs, t.nanos) {
        Some(d) => d.to_rfc3339_opts(SecondsFormat::AutoSi, true),
        None => String::new(),
    }
}

} // verus!
