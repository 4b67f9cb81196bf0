use vstd::prelude::*;

verus! {

/// The error that `chrono` reports for a text that is no date and time.
#[verifier::external_type_specification]
#[verifier::external_body]
pub struct ExParseError(chrono::ParseError);

/// The error that `rss` reports when a channel cannot be written.
#[verifier::external_type_specification]
#[verifier::external_body]
pub struct ExRssError(rss::Error);

/// What can go wrong while a feed is produced.
#[derive(Debug)]
pub enum RssError {
    /// A publication date is not a date and time with an offset from UTC.
    InvalidPubDate(chrono::ParseError),
    /// The channel could not be written as XML.
    Serialize(rss::Error),
}

} // verus!
