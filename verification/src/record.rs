//! Records: one row of the sheet as a mapping from column name to text.
//!
//! A record keeps its fields in a JSON object of the `serde_json` crate, so
//! that it can be handed to a JSON encoder as it is. The contracts speak of
//! the record's view, a `Map` from key to text.

use vstd::prelude::*;

verus! {

/// `serde_json::Value`, a JSON value: carried, never looked into.
#[verifier::external_type_specification]
#[verifier::external_body]
pub struct ExJsonValue(serde_json::Value);

/// `serde_json::Map`, a JSON object: known to contracts by `object_text`.
#[verifier::external_type_specification]
#[verifier::external_body]
#[verifier::reject_recursive_types(K)]
#[verifier::reject_recursive_types(V)]
pub struct ExJsonObject<K, V>(serde_json::Map<K, V>);

/// What a record is in contracts: its text by column name.
pub type Fields = Map<Seq<char>, Seq<char>>;

/// The text fields of a JSON object: each key under which the object holds
/// a JSON string, with that string.
pub uninterp spec fn object_text(object: serde_json::Map<String, serde_json::Value>) -> Map<
    Seq<char>,
    Seq<char>,
>;

/// `serde_json::Map::new`: an object without entries. Not verified.
#[verifier::external_body]
fn object_new() -> (object: serde_json::Map<String, serde_json::Value>)
    ensures
        object_text(object) == Fields::empty(),
{
    serde_json::Map::new()
}

/// `serde_json::Map::insert` with a string value: afterwards the object
/// holds `text` under `key`, in place of what it held there, and is
/// unchanged under every other key. Not verified.
#[verifier::external_body]
fn object_insert(
    object: &mut serde_json::Map<String, serde_json::Value>,
    key: String,
    text: String,
)
    ensures
        object_text(*final(object)) == object_text(*old(object)).insert(key@, text@),
{
    object.insert(key, serde_json::Value::String(text));
}

/// `serde_json::Map::remove`: afterwards the object holds nothing under
/// `key` and is unchanged under every other key. Not verified.
#[verifier::external_body]
fn object_remove(object: &mut serde_json::Map<String, serde_json::Value>, key: &str)
    ensures
        object_text(*final(object)) == object_text(*old(object)).remove(key@),
{
    object.remove(key);
}

/// `serde_json::Map::get` followed by `serde_json::Value::as_str`: the
/// string held under `key`, if a string is held there. Not verified.
#[verifier::external_body]
fn object_get(object: &serde_json::Map<String, serde_json::Value>, key: &str) -> (r: Option<
    String,
>)
    ensures
        match r {
            Some(text) => object_text(*object).contains_key(key@) && object_text(*object)[key@]
                == text@,
            None => !object_text(*object).contains_key(key@),
        },
{
    object.get(key).and_then(serde_json::Value::as_str).map(String::from)
}

/// One data row: a mapping from column name to the text of the cell.
///
/// Every field of a record is text. A record is made empty and filled by
/// `insert`; nothing else puts a value into one.
#[derive(Debug, PartialEq, Eq)]
pub struct Record {
    fields: serde_json::Map<String, serde_json::Value>,
}

impl View for Record {
    type V = Fields;

    closed spec fn view(&self) -> Fields {
        object_text(self.fields)
    }
}

impl DeepView for Record {
    type V = Fields;

    open spec fn deep_view(&self) -> Fields {
        self.view()
    }
}

impl Record {
    /// A record without fields.
    pub fn new() -> (record: Record)
        ensures
            record@ == Fields::empty(),
    {
        Record { fields: object_new() }
    }

    /// Sets the field `key` to `text`, replacing what it held.
    pub fn insert(&mut self, key: String, text: String)
        ensures
            final(self)@ == old(self)@.insert(key@, text@),
    {
        object_insert(&mut self.fields, key, text);
    }

    /// Removes the field `key`, if there is one.
    pub fn remove(&mut self, key: &str)
        ensures
            final(self)@ == old(self)@.remove(key@),
    {
        object_remove(&mut self.fields, key);
    }

    /// The text of the field `key`, if there is one.
    pub fn get(&self, key: &str) -> (r: Option<String>)
        ensures
            match r {
                Some(text) => self@.contains_key(key@) && self@[key@] == text@,
                None => !self@.contains_key(key@),
            },
    {
        object_get(&self.fields, key)
    }

    /// Tells whether the record has a field `key`.
    pub fn contains_key(&self, key: &str) -> (r: bool)
        ensures
            r == self@.contains_key(key@),
    {
        self.get(key).is_some()
    }

    /// The record as a JSON object.
    pub fn as_object(&self) -> (object: &serde_json::Map<String, serde_json::Value>)
        ensures
            object_text(*object) == self@,
    {
        &self.fields
    }
}

} // verus!
