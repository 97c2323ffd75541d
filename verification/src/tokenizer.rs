//! Splitting raw text into rows of cells.
//!
//! The splitting itself is the work of the `csv` crate. What it returns is
//! named here and not spelled out: the contracts of this library speak of
//! that name.

use crate::delimiter::Delimiter;
use crate::failure::Failure;
use vstd::prelude::*;

verus! {

/// `csv::Error`, the error of the `csv` reader: carried, never looked into.
#[verifier::external_type_specification]
#[verifier::external_body]
pub struct ExCsvError(csv::Error);

/// The rows of cells that the `csv` reader yields for `text` when it splits
/// at `delimiter`, takes no row for a header and accepts rows of any
/// length; `None` where the reader reports an error on some row.
pub uninterp spec fn csv_rows(text: Seq<char>, delimiter: u8) -> Option<Seq<Seq<Seq<char>>>>;

/// Reads every record of `text` with a `csv::Reader` built by
/// `csv::ReaderBuilder` with the given delimiter, `has_headers(false)` and
/// `flexible(true)`, and copies the fields out. Not verified: the contract
/// only gives the outcome its name, `csv_rows`, and says that the first
/// error ends the reading. It is stated for the comma and the semicolon
/// alone.
#[verifier::external_body]
fn read_rows(text: &str, delimiter: u8) -> (r: Result<Vec<Vec<String>>, csv::Error>)
    requires
        delimiter == 44 || delimiter == 59,
    ensures
        match r {
            Ok(rows) => csv_rows(text@, delimiter) == Some(rows.deep_view()),
            Err(_) => csv_rows(text@, delimiter) is None,
        },
{
    let mut reader = csv::ReaderBuilder::new()
        .delimiter(delimiter)
        .has_headers(false)
        .flexible(true)
        .from_reader(text.as_bytes());
    let mut rows: Vec<Vec<String>> = Vec::new();
    for record in reader.records() {
        rows.push(record?.iter().map(String::from).collect());
    }
    Ok(rows)
}

/// Splits `text` into rows of cells at `delimiter`. Rows may differ in
/// length, and none is set apart as a header. A text that the tokenizer
/// cannot decode gives `DecodeFailure`, and no rows at all.
pub fn tokenize(text: &str, delimiter: Delimiter) -> (r: Result<Vec<Vec<String>>, Failure>)
    ensures
        match r {
            Ok(rows) => csv_rows(text@, delimiter.code()) == Some(rows.deep_view()),
            Err(e) => e == Failure::DecodeFailure && csv_rows(text@, delimiter.code()) is None,
        },
{
    match read_rows(text, delimiter.byte()) {
        Ok(rows) => Ok(rows),
        Err(_) => Err(Failure::DecodeFailure),
    }
}

} // verus!
