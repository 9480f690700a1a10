//! Error taxonomy: entry-level defects are absorbed inside the parsers
//! (dropped entries, date fallback); these types carry only feed-scoped
//! failures.

use vstd::prelude::*;

verus! {

/// A feed-scoped parse failure: the XML token stream was malformed beyond
/// recovery (`Xml`), or a date field could not be understood (`InvalidDate`;
/// kept for callers, the bundled parsers fall back to the current time
/// instead of raising it).
#[derive(Debug)]
pub enum RssParseError {
    Xml(String),
    InvalidDate(String),
}

/// A feed-scoped ingestion failure: transport, parse, storage, or other.
#[derive(Debug)]
pub enum RssIngestionError {
    Network(String),
    Parse(RssParseError),
    Database(String),
    Other(String),
}

} // verus!
