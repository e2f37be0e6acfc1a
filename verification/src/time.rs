//! Instants as whole seconds plus nanoseconds since the Unix epoch, read
//! from RFC 3339 text through `chrono`.

use vstd::prelude::*;

verus! {

/// An instant: seconds since the Unix epoch plus a sub-second part.
#[derive(Debug, Clone, Copy, PartialEq, Eq, Structural)]
pub struct Timestamp {
    pub secs: i64,
    pub nanos: u32,
}

/// `a` is no later than `b`.
pub open spec fn ts_le(a: Timestamp, b: Timestamp) -> bool {
    a.secs < b.secs || (a.secs == b.secs && a.nanos <= b.nanos)
}

/// `a` is strictly earlier than `b`.
pub open spec fn ts_lt(a: Timestamp, b: Timestamp) -> bool {
    a.secs < b.secs || (a.secs == b.secs && a.nanos < b.nanos)
}

/// `a` moved forward by `secs` seconds is no later than `b`.
pub open spec fn ts_plus_le(a: Timestamp, secs: int, b: Timestamp) -> bool {
    a.secs + secs < b.secs || (a.secs + secs == b.secs && a.nanos <= b.nanos)
}

/// What `chrono::DateTime::parse_from_rfc3339` reads from `s`: the instant's
/// Unix seconds and sub-second nanoseconds, or nothing when `s` is not RFC 3339.
pub uninterp spec fn spec_rfc3339_instant(s: Seq<char>) -> Option<(int, int)>;

/// `chrono::DateTime::parse_from_rfc3339`, read back through `timestamp()` and
/// `timestamp_subsec_nanos()`.
///
/// Claims only that the outcome is a function of the text; which strings parse
/// and to which instant is left to chrono.
#[verifier::external_body]
pub(crate) fn parse_rfc3339(s: &str) -> (r: Option<Timestamp>)
    ensures
        match spec_rfc3339_instant(s@) {
            Some((secs, nanos)) => r matches Some(t) && t.secs == secs && t.nanos == nanos,
            None => r is None,
        },
{
    match chrono::DateTime::parse_from_rfc3339(s) {
        Ok(dt) => Some(Timestamp { secs: dt.timestamp(), nanos: dt.timestamp_subsec_nanos() }),
        Err(_) => None,
    }
}

/// What `chrono::DateTime::<Utc>::to_rfc3339` writes for the instant at
/// `secs` seconds and `nanos` nanoseconds past the epoch, or nothing where
/// `DateTime::from_timestamp` finds the instant out of range.
pub uninterp spec fn spec_rfc3339_text(secs: int, nanos: int) -> Option<Seq<char>>;

/// `chrono::DateTime::<Utc>::from_timestamp` then `to_rfc3339`.
///
/// Claims only that the text is a function of the instant; the format and
/// the range are chrono's.
#[verifier::external_body]
pub(crate) fn format_rfc3339(t: Timestamp) -> (r: Option<String>)
    ensures
        match spec_rfc3339_text(t.secs as int, t.nanos as int) {
            Some(text) => r matches Some(s) && s@ == text,
            None => r is None,
        },
{
    match chrono::DateTime::<chrono::Utc>::from_timestamp(t.secs, t.nanos) {
        Some(dt) => Some(dt.to_rfc3339()),
        None => None,
    }
}

/// `chrono::Utc::now()`, as an instant. Nothing is claimed of the value.
#[verifier::external_body]
pub(crate) fn now_utc() -> (r: Timestamp) {
    let now = chrono::Utc::now();
    Timestamp { secs: now.timestamp(), nanos: now.timestamp_subsec_nanos() }
}

/// Whether `a + secs <= b`.
pub fn plus_le(a: Timestamp, secs: i64, b: Timestamp) -> (r: bool)
    ensures
        r == ts_plus_le(a, secs as int, b),
{
    let shifted: i128 = a.secs as i128 + secs as i128;
    shifted < b.secs as i128 || (shifted == b.secs as i128 && a.nanos <= b.nanos)
}

/// Whether `a <= b`.
pub fn le(a: Timestamp, b: Timestamp) -> (r: bool)
    ensures
        r == ts_le(a, b),
{
    a.secs < b.secs || (a.secs == b.secs && a.nanos <= b.nanos)
}

/// Whether `a < b`.
pub fn lt(a: Timestamp, b: Timestamp) -> (r: bool)
    ensures
        r == ts_lt(a, b),
{
    a.secs < b.secs || (a.secs == b.secs && a.nanos < b.nanos)
}

} // verus!
