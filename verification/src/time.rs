//! Instants in UTC, held as plain integers.

use vstd::prelude::*;

verus! {

/// An instant in UTC: whole seconds since 1970-01-01T00:00:00Z and the
/// nanoseconds past that second.
#[derive(Clone, Copy, Debug, PartialEq, Eq, Structural)]
pub struct Timestamp {
    pub secs: i64,
    pub nanos: u32,
}

/// The characters of an optional string.
pub open spec fn optional_text(text: Option<String>) -> Option<Seq<char>> {
    match text {
        Some(t) => Some(t@),
        None => None,
    }
}

/// The text `chrono` prints with the format `%Y-%m-%d` for the UTC instant
/// `secs` seconds and `nanos` nanoseconds after the Unix epoch, or `None`
/// where `chrono` cannot represent that instant.
pub uninterp spec fn utc_day_text(secs: i64, nanos: u32) -> Option<Seq<char>>;

/// Calls `chrono::DateTime::from_timestamp` and, on the instant it returns,
/// `DateTime::format` with `%Y-%m-%d`. The contract only gives the outcome
/// its name: the same instant always yields the same text, and `None` comes
/// back exactly where `from_timestamp` rejects the instant.
#[verifier::external_body]
fn format_utc_day(secs: i64, nanos: u32) -> (day: Option<String>)
    ensures
        optional_text(day) == utc_day_text(secs, nanos),
{
    match chrono::DateTime::from_timestamp(secs, nanos) {
        Some(instant) => Some(instant.format("%Y-%m-%d").to_string()),
        None => None,
    }
}

impl Timestamp {
    /// The calendar day of this instant as text, if the instant has one.
    pub open spec fn day_text(self) -> Option<Seq<char>> {
        utc_day_text(self.secs, self.nanos)
    }

    /// The calendar day (`YYYY-MM-DD`) on which this instant falls in UTC, or
    /// `None` for an instant outside the supported range.
    pub fn calendar_day(&self) -> (day: Option<String>)
        ensures
            optional_text(day) == self.day_text(),
    {
        format_utc_day(self.secs, self.nanos)
    }
}

} // verus!
