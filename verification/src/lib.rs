//! Read-only, reverse-indexable lookup over a fixed dataset of U.S. ZIP code
//! records.
//!
//! Raw tabular rows are ingested, normalized and deduplicated into a record
//! set keyed by ZIP code, together with a derived reverse index from
//! normalized "City, State" keys to the ZIP codes first seen under them.
//! Both are compiled into immutable hash tables that answer exact-match
//! queries: a record by its ZIP code, or every record of a city.

pub mod ingest;
pub mod normalize;
pub mod numbers;
pub mod record;
pub mod tables;
pub mod tabular;
pub mod text;
