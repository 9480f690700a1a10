//! Feed-ingestion library: canonical feed items with content-derived
//! identity, tolerant streaming parsers for three provider XML dialects,
//! an idempotent write path, and the decision logic of the ingestion
//! orchestrator and its polling scheduler.

pub mod error;
pub mod scan;
pub mod rss;
pub mod xml;
pub mod store;
pub mod ingest;
