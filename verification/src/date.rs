use vstd::prelude::*;

use crate::error::RssError;

verus! {

/// An instant on the UTC time line: the whole seconds since 1970-01-01T00:00:00Z
/// (leap seconds not counted) and the nanoseconds since that second began.
///
/// During a leap second `nanos` runs from 1_000_000_000 up, so that the pair
/// still grows with time.
#[derive(Clone, Copy, Debug, PartialEq, Eq, Structural)]
pub struct Timestamp {
    pub secs: i64,
    pub nanos: u32,
}

impl Timestamp {
    /// `self` is strictly earlier than `other`.
    pub open spec fn before(self, other: Timestamp) -> bool {
        self.secs < other.secs || (self.secs == other.secs && self.nanos < other.nanos)
    }

    /// Whether `self` is strictly earlier than `other`.
    pub fn is_before(&self, other: &Timestamp) -> (earlier: bool)
        ensures
            earlier == self.before(*other),
    {
        self.secs < other.secs || (self.secs == other.secs && self.nanos < other.nanos)
    }
}

/// The instant that `chrono` reads from a text, as seconds and nanoseconds;
/// `None` for a text that it rejects.
pub uninterp spec fn utc_instant(text: Seq<char>) -> Option<(i64, u32)>;

/// The instant that a publication date denotes, if it denotes one.
pub open spec fn timestamp_of(text: Seq<char>) -> Option<Timestamp> {
    match utc_instant(text) {
        Some((secs, nanos)) => Some(Timestamp { secs, nanos }),
        None => None,
    }
}

/// Calls `chrono`'s `FromStr` for `DateTime<Utc>`, which reads a date and time
/// in RFC 3339 form (a space may stand for the `T`) and moves it to UTC.
///
/// Trusted: the result depends on the text alone; an accepted text yields the
/// pair `(timestamp(), timestamp_subsec_nanos())` of the parsed value.
#[verifier::external_body]
fn utc_from_str(text: &str) -> (parsed: Result<(i64, u32), chrono::ParseError>)
    ensures
        parsed matches Ok(instant) ==> utc_instant(text@) == Some(instant),
        parsed is Err ==> utc_instant(text@) is None,
{
    text.parse::<chrono::DateTime<chrono::Utc>>().map(
        |at| (at.timestamp(), at.timestamp_subsec_nanos()),
    )
}

/// Reads a publication date.
pub fn parse_pub_date(date_str: &str) -> (parsed: Result<Timestamp, RssError>)
    ensures
        parsed matches Ok(instant) ==> timestamp_of(date_str@) == Some(instant),
        parsed matches Err(e) ==> e is InvalidPubDate && timestamp_of(date_str@) is None,
{
    match utc_from_str(date_str) {
        Ok((secs, nanos)) => Ok(Timestamp { secs, nanos }),
        Err(e) => Err(RssError::InvalidPubDate(e)),
    }
}

} // verus!
