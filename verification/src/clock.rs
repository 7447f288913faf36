//! Instants and their text.

use vstd::prelude::*;
use crate::tle::NANOS_PER_SECOND;

verus! {

/// Last second of the year 9999, in seconds since the Unix epoch.
pub const LAST_FOUR_DIGIT_SECOND: i64 = 253_402_300_799;

/// An instant in UTC: whole seconds since the Unix epoch and the
/// nanoseconds past them.
#[derive(Debug, Clone, Copy, PartialEq, Eq, Structural)]
pub struct Timestamp {
    pub seconds: i64,
    pub nanos: u32,
}

/// The RFC 3339 text that `chrono` writes for an instant, or `None` where
/// `chrono` has no such instant.
pub uninterp spec fn rfc3339_text(seconds: int, nanos: int) -> Option<Seq<char>>;

/// Calls `chrono::DateTime::from_timestamp` and, on the instant it gives,
/// `to_rfc3339`. The result is the text that `rfc3339_text` names. An
/// instant from 1970 to 9999 with less than a second of nanoseconds is
/// within `chrono`'s range, so it has a text.
#[verifier::external_body]
fn format_rfc3339(seconds: i64, nanos: u32) -> (r: Option<String>)
    ensures
        match r {
            Some(text) => rfc3339_text(seconds as int, nanos as int) == Some(text@),
            None => rfc3339_text(seconds as int, nanos as int) is None,
        },
        0 <= seconds <= LAST_FOUR_DIGIT_SECOND && nanos < NANOS_PER_SECOND ==> r is Some,
{
    match chrono::DateTime::from_timestamp(seconds, nanos) {
        Some(instant) => Some(instant.to_rfc3339()),
        None => None,
    }
}

/// Writes an instant as RFC 3339 text in UTC.
pub fn system_time_to_iso8601(seconds: i64, nanos: u32) -> (r: Option<String>)
    ensures
        match r {
            Some(text) => rfc3339_text(seconds as int, nanos as int) == Some(text@),
            None => rfc3339_text(seconds as int, nanos as int) is None,
        },
        0 <= seconds <= LAST_FOUR_DIGIT_SECOND && nanos < NANOS_PER_SECOND ==> r is Some,
{
    format_rfc3339(seconds, nanos)
}

impl Timestamp {
    /// The instant as RFC 3339 text in UTC.
    pub fn to_rfc3339(&self) -> (r: Option<String>)
        ensures
            match r {
                Some(text) => rfc3339_text(self.seconds as int, self.nanos as int) == Some(text@),
                None => rfc3339_text(self.seconds as int, self.nanos as int) is None,
            },
            0 <= self.seconds <= LAST_FOUR_DIGIT_SECOND && self.nanos < NANOS_PER_SECOND ==> r
                is Some,
    {
        system_time_to_iso8601(self.seconds, self.nanos)
    }
}

} // verus!
