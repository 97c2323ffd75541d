//! Ingestion of a published spreadsheet.
//!
//! The raw text of the sheet's export is normalised into records: the
//! delimiter is sniffed from the first line, the header row is found by the
//! label in its second cell, and each later row becomes a mapping from
//! column name to text. A gateway decides, for a cache with a time to live,
//! when the stored snapshot of the records is served and when the export is
//! fetched again.
//!
//! - `text`: whitespace, trimming, decimal numerals
//! - `delimiter`: the byte-order mark and the choice of the delimiter
//! - `tokenizer`: rows of cells, by the `csv` crate
//! - `record`: one record, over a JSON object of the `serde_json` crate
//! - `normalize`: from raw text to records
//! - `snapshot`: records as JSON text and back, by the `serde_json` crate
//! - `gateway`: the cache's decisions, as a machine of states and events
//! - `failure`: why a call can fail

pub mod delimiter;
pub mod failure;
pub mod gateway;
pub mod normalize;
pub mod record;
pub mod snapshot;
pub mod text;
pub mod tokenizer;
