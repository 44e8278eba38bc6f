//! Instants on the UTC time line, and the clock.

use vstd::prelude::*;
use chrono::DateTime;
use chrono::Utc;

verus! {

/// Nanoseconds in one second.
pub const NANOS_PER_SEC: i128 = 1_000_000_000;

/// First second of year 0000 (proleptic Gregorian), counted from the Unix epoch.
pub const MIN_CIVIL_SECS: i64 = -62_167_219_200;

/// Last second of year 9999, counted from the Unix epoch.
pub const MAX_CIVIL_SECS: i64 = 253_402_300_799;

/// An instant in UTC: whole seconds since 1970-01-01T00:00:00Z and the
/// nanoseconds that follow them.
#[derive(Clone, Copy, Debug, PartialEq, Eq, Structural)]
pub struct Timestamp {
    pub secs: i64,
    pub nanos: u32,
}

impl Timestamp {
    /// Position on the time line, in nanoseconds since the epoch.
    pub open spec fn total_nanos(self) -> int {
        self.secs * 1_000_000_000 + self.nanos
    }

    /// Signed distance from `earlier` to `self`, in nanoseconds.
    pub open spec fn nanos_since(self, earlier: Timestamp) -> int {
        self.total_nanos() - earlier.total_nanos()
    }

    /// The instant lies in the years 0000 to 9999 and is no leap second:
    /// the range that a four-digit calendar year can express.
    pub open spec fn is_civil(self) -> bool {
        &&& MIN_CIVIL_SECS <= self.secs <= MAX_CIVIL_SECS
        &&& self.nanos < 1_000_000_000
    }

    /// The instant `secs` seconds and `nanos` nanoseconds after the epoch.
    pub fn new(secs: i64, nanos: u32) -> (t: Timestamp)
        ensures
            t.secs == secs,
            t.nanos == nanos,
    {
        Timestamp { secs, nanos }
    }

    /// Signed distance from `earlier` to `self`, in nanoseconds.
    pub fn since(&self, earlier: &Timestamp) -> (d: i128)
        ensures
            d == self.nanos_since(*earlier),
    {
        let s: i128 = self.secs as i128 - earlier.secs as i128;
        let n: i128 = self.nanos as i128 - earlier.nanos as i128;
        s * NANOS_PER_SEC + n
    }

    /// Whether the instant lies in the years 0000 to 9999 and is no leap
    /// second.
    pub fn check_civil(&self) -> (ok: bool)
        ensures
            ok == self.is_civil(),
    {
        MIN_CIVIL_SECS <= self.secs && self.secs <= MAX_CIVIL_SECS && self.nanos < 1_000_000_000
    }
}

/// The RFC 3339 text of the instant `secs` seconds and `nanos` nanoseconds
/// after the epoch, where the calendar can express it: what
/// `chrono::DateTime::<Utc>::to_rfc3339` writes for the value that
/// `chrono::DateTime::from_timestamp` makes of the pair.
pub uninterp spec fn rfc3339_of(secs: i64, nanos: u32) -> Option<Seq<char>>;

/// The instant that an RFC 3339 text denotes, as seconds and nanoseconds
/// after the epoch: what `chrono::DateTime::parse_from_rfc3339` reads.
pub uninterp spec fn rfc3339_instant(text: Seq<char>) -> Option<(i64, u32)>;

/// The instant that a pair of seconds and nanoseconds stands for.
pub open spec fn opt_instant(pair: Option<(i64, u32)>) -> Option<Timestamp> {
    match pair {
        Some((secs, nanos)) => Some(Timestamp { secs, nanos }),
        None => None,
    }
}

/// The characters of an optional string.
pub open spec fn opt_text(s: Option<String>) -> Option<Seq<char>> {
    match s {
        Some(t) => Some(t@),
        None => None,
    }
}

/// Calls `chrono::Utc::now` and hands back its seconds and nanoseconds.
/// The value is the machine's clock, so nothing is claimed of it.
#[verifier::external_body]
pub(crate) fn clock_now() -> (t: Timestamp) {
    let now = Utc::now();
    Timestamp { secs: now.timestamp(), nanos: now.timestamp_subsec_nanos() }
}

/// Calls `chrono::DateTime::from_timestamp`, then `to_rfc3339` on what it
/// made. Claimed: the text is a function of the two numbers alone, named
/// [`rfc3339_of`]; a pair that chrono refuses gives `None`.
#[verifier::external_body]
pub(crate) fn format_rfc3339(t: Timestamp) -> (r: Option<String>)
    ensures
        opt_text(r) == rfc3339_of(t.secs, t.nanos),
{
    match DateTime::from_timestamp(t.secs, t.nanos) {
        Some(dt) => Some(dt.to_rfc3339()),
        None => None,
    }
}

/// Calls `chrono::DateTime::parse_from_rfc3339` and hands back the instant
/// in UTC. Claimed: the outcome is a function of the text alone, named
/// [`rfc3339_instant`]; a text that is refused gives `None`.
#[verifier::external_body]
pub(crate) fn parse_rfc3339(text: &str) -> (r: Option<Timestamp>)
    ensures
        r == opt_instant(rfc3339_instant(text@)),
{
    match DateTime::parse_from_rfc3339(text) {
        Ok(dt) => Some(Timestamp { secs: dt.timestamp(), nanos: dt.timestamp_subsec_nanos() }),
        Err(_) => None,
    }
}

} // verus!
