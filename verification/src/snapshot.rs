//! The snapshot: the records of the last successful fetch as JSON text.
//!
//! Encoding and decoding JSON is the work of the `serde_json` crate. What it
//! returns is named here and not spelled out.

use crate::record::{Fields, Record};
use vstd::prelude::*;

verus! {

/// `serde_json::Error`, the error of the JSON encoder and decoder: carried,
/// never looked into.
#[verifier::external_type_specification]
#[verifier::external_body]
pub struct ExJsonError(serde_json::Error);

/// The pretty-printed JSON text of an array of objects with the given text
/// fields, as `serde_json` writes it; `None` where it reports an error.
pub uninterp spec fn pretty_json(rows: Seq<Fields>) -> Option<Seq<char>>;

/// The entries of the objects of a JSON array of objects whose values are
/// all strings, as `serde_json` reads them from `text`: for each object its
/// keys with their strings. `None` where `text` is no such array.
pub uninterp spec fn json_rows(text: Seq<char>) -> Option<Seq<Seq<(Seq<char>, Seq<char>)>>>;

/// `serde_json::to_string_pretty` on the records' objects, in order. Not
/// verified: the contract only gives the outcome its name, `pretty_json`.
#[verifier::external_body]
fn to_pretty_json(records: &Vec<Record>) -> (r: Result<String, serde_json::Error>)
    ensures
        match r {
            Ok(text) => pretty_json(records.deep_view()) == Some(text@),
            Err(_) => pretty_json(records.deep_view()) is None,
        },
{
    let objects: Vec<&serde_json::Map<String, serde_json::Value>> =
        records.iter().map(Record::as_object).collect();
    serde_json::to_string_pretty(&objects)
}

/// `serde_json::from_str` for a list of maps from string to string, each
/// map handed out as its entries. Not verified: the contract only gives the
/// outcome its name, `json_rows`.
#[verifier::external_body]
fn from_json(text: &str) -> (r: Result<Vec<Vec<(String, String)>>, serde_json::Error>)
    ensures
        match r {
            Ok(rows) => json_rows(text@) == Some(rows.deep_view()),
            Err(_) => json_rows(text@) is None,
        },
{
    let rows: Vec<std::collections::BTreeMap<String, String>> = serde_json::from_str(text)?;
    Ok(rows.into_iter().map(|row| row.into_iter().collect()).collect())
}

/// The fields that a list of entries gives, entry by entry: where a key
/// comes twice, the later entry stays.
pub open spec fn fields_of_entries(entries: Seq<(Seq<char>, Seq<char>)>) -> Fields
    decreases entries.len(),
{
    if entries.len() == 0 {
        Map::empty()
    } else {
        fields_of_entries(entries.drop_last()).insert(entries.last().0, entries.last().1)
    }
}

/// The records that lists of entries give, one for each list.
pub open spec fn records_of_entries(rows: Seq<Seq<(Seq<char>, Seq<char>)>>) -> Seq<Fields> {
    rows.map_values(|entries: Seq<(Seq<char>, Seq<char>)>| fields_of_entries(entries))
}

/// The snapshot text of `records`, where they can be encoded.
pub open spec fn encoded(records: Seq<Fields>) -> Option<Seq<char>> {
    pretty_json(records)
}

/// The records that the snapshot text `text` holds; `None` where `text` is
/// no snapshot.
pub open spec fn decoded(text: Seq<char>) -> Option<Seq<Fields>> {
    match json_rows(text) {
        Some(rows) => Some(records_of_entries(rows)),
        None => None,
    }
}

/// Builds a record from its entries.
pub fn record_from_entries(entries: &Vec<(String, String)>) -> (record: Record)
    ensures
        record@ == fields_of_entries(entries.deep_view()),
{
    let mut record = Record::new();
    let mut i: usize = 0;
    while i < entries.len()
        invariant
            i <= entries.len(),
            record@ == fields_of_entries(entries.deep_view().take(i as int)),
        decreases entries.len() - i,
    {
        proof {
            let all = entries.deep_view();
            assert(all.take(i + 1).drop_last() =~= all.take(i as int));
            assert(all.take(i + 1).last() == (entries@[i as int].0@, entries@[i as int].1@));
        }
        let key = entries[i].0.clone();
        let text = entries[i].1.clone();
        record.insert(key, text);
        i += 1;
    }
    proof {
        assert(entries.deep_view().take(i as int) =~= entries.deep_view());
    }
    record
}

/// Builds the records of a decoded snapshot: one from each list of entries.
pub fn records_from_entries(rows: &Vec<Vec<(String, String)>>) -> (records: Vec<Record>)
    ensures
        records.deep_view() == records_of_entries(rows.deep_view()),
{
    let mut records: Vec<Record> = Vec::new();
    let mut i: usize = 0;
    while i < rows.len()
        invariant
            i <= rows.len(),
            records.deep_view() == records_of_entries(rows.deep_view().take(i as int)),
        decreases rows.len() - i,
    {
        let ghost before = records.deep_view();
        let record = record_from_entries(&rows[i]);
        records.push(record);
        proof {
            let all = rows.deep_view();
            assert(all[i as int] == rows@[i as int].deep_view());
            assert(records.deep_view() =~= before.push(record@));
            assert(records_of_entries(all.take(i + 1)) =~= records_of_entries(
                all.take(i as int),
            ).push(fields_of_entries(all[i as int])));
        }
        i += 1;
    }
    proof {
        assert(rows.deep_view().take(i as int) =~= rows.deep_view());
    }
    records
}

/// Encodes records as the text of a snapshot; `None` where the encoder
/// reports an error.
pub fn encode_snapshot(records: &Vec<Record>) -> (r: Option<String>)
    ensures
        match r {
            Some(text) => encoded(records.deep_view()) == Some(text@),
            None => encoded(records.deep_view()) is None,
        },
{
    match to_pretty_json(records) {
        Ok(text) => Some(text),
        Err(_) => None,
    }
}

/// Decodes the text of a snapshot into its records; `None` where the text
/// is no snapshot.
pub fn decode_snapshot(text: &str) -> (r: Option<Vec<Record>>)
    ensures
        match r {
            Some(records) => decoded(text@) == Some(records.deep_view()),
            None => decoded(text@) is None,
        },
{
    match from_json(text) {
        Ok(rows) => Some(records_from_entries(&rows)),
        Err(_) => None,
    }
}

} // verus!
