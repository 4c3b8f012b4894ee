//! Acquisition pipeline for a large, periodically refreshed catalog of
//! card records: a rate-limited download client, a dataset resolver over
//! the provider's bulk listing, an on-disk cache with freshness checks and
//! atomic replacement, a streaming trim of the array-framed payload into
//! one JSON object per line, and a decoder that turns the trimmed file
//! into an in-memory catalog served by identifier lookups.

pub mod bulk;
pub mod cache;
pub mod downloader;
pub mod record;
pub mod scryfall_structures;
pub mod trim;
