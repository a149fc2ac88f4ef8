use vstd::prelude::*;

verus! {

/// The instant that an RFC 3339 date-and-time text stands for, in
/// microseconds since the Unix epoch; none where the text is not one.
pub uninterp spec fn rfc3339_micros(s: Seq<char>) -> Option<i64>;

/// Relies on chrono's `DateTime::parse_from_rfc3339` to read the text, and
/// on `DateTime::timestamp_micros` to give the instant it stands for.
#[verifier::external_body]
fn parse_rfc3339_micros(s: &str) -> (r: Option<i64>)
    ensures
        r == rfc3339_micros(s@),
{
    chrono::DateTime::parse_from_rfc3339(s).ok().map(|d| d.timestamp_micros())
}

/// A UTC instant, as microseconds since the Unix epoch.
#[derive(Clone, Copy, Debug, PartialEq, Eq, Structural)]
pub struct Timestamp {
    pub micros: i64,
}

impl Timestamp {
    pub fn from_micros(micros: i64) -> (r: Timestamp)
        ensures
            r.micros == micros,
    {
        Timestamp { micros }
    }

    /// Reads an RFC 3339 date-and-time text, such as
    /// `2024-01-01T00:00:00Z`.
    pub fn parse_rfc3339(s: &str) -> (r: Option<Timestamp>)
        ensures
            match rfc3339_micros(s@) {
                Some(m) => r == Some(Timestamp { micros: m }),
                None => r is None,
            },
    {
        match parse_rfc3339_micros(s) {
            Some(m) => Some(Timestamp { micros: m }),
            None => None,
        }
    }

    /// Whether `self` is strictly later than `other`.
    pub fn is_after(&self, other: &Timestamp) -> (r: bool)
        ensures
            r == (self.micros > other.micros),
    {
        self.micros > other.micros
    }
}

} // verus!
