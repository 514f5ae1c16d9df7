//! Verified core of a news/media ingestion pipeline: substring search and
//! text normalization, markup stripping, a keyphrase-driven region tagger,
//! a politeness gate for outbound fetches, URL deduplication, the
//! orchestrator's record assembly, and the decision logic of the listing
//! and API scrapers.

pub mod antiwar;
pub mod forbes;
pub mod gate;
pub mod markup;
pub mod pipeline;
pub mod regions;
pub mod text;
