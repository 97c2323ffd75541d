use sheet_ingest::record::Record;
use sheet_ingest::snapshot::{
    decode_snapshot, encode_snapshot, record_from_entries, records_from_entries,
};

fn record(pairs: &[(&str, &str)]) -> Record {
    let mut r = Record::new();
    for (k, v) in pairs {
        r.insert(k.to_string(), v.to_string());
    }
    r
}

fn entries(pairs: &[(&str, &str)]) -> Vec<(String, String)> {
    pairs.iter().map(|(k, v)| (k.to_string(), v.to_string())).collect()
}

#[test]
fn new_record_is_empty() {
    let r = Record::new();
    assert!(r.as_object().is_empty());
    assert_eq!(r.get("State"), None);
    assert!(!r.contains_key("State"));
}

#[test]
fn insert_then_get() {
    let mut r = Record::new();
    r.insert("State".to_string(), "KS".to_string());
    r.insert("Zip".to_string(), "66101".to_string());
    assert_eq!(r.get("State"), Some("KS".to_string()));
    assert_eq!(r.get("Zip"), Some("66101".to_string()));
    assert_eq!(r.get("County"), None);
    assert!(r.contains_key("Zip"));
    assert_eq!(r.as_object().len(), 2);
}

#[test]
fn insert_replaces() {
    let mut r = record(&[("State", "KS")]);
    r.insert("State".to_string(), "MO".to_string());
    assert_eq!(r.get("State"), Some("MO".to_string()));
    assert_eq!(r.as_object().len(), 1);
}

#[test]
fn remove_drops_only_that_key() {
    let mut r = record(&[("State", "KS"), ("Zip", "66101")]);
    r.remove("State");
    assert_eq!(r.get("State"), None);
    assert_eq!(r.get("Zip"), Some("66101".to_string()));
    r.remove("absent");
    assert_eq!(r.as_object().len(), 1);
}

#[test]
fn fields_are_json_strings() {
    let r = record(&[("Zip", "66101")]);
    assert_eq!(
        r.as_object().get("Zip"),
        Some(&serde_json::Value::String("66101".to_string()))
    );
}

#[test]
fn record_from_entries_later_entry_wins() {
    let r = record_from_entries(&entries(&[("a", "1"), ("b", "2"), ("a", "3")]));
    assert_eq!(r.get("a"), Some("3".to_string()));
    assert_eq!(r.get("b"), Some("2".to_string()));
    assert_eq!(r.as_object().len(), 2);
}

#[test]
fn records_from_entries_one_record_per_list() {
    let rows = vec![entries(&[("State", "KS")]), entries(&[]), entries(&[("State", "MO")])];
    let records = records_from_entries(&rows);
    assert_eq!(records.len(), 3);
    assert_eq!(records[0].get("State"), Some("KS".to_string()));
    assert!(records[1].as_object().is_empty());
    assert_eq!(records[2].get("State"), Some("MO".to_string()));
}

#[test]
fn encode_exact_text() {
    let records = vec![record(&[("Zip", "66101"), ("State", "KS")]), record(&[])];
    let text = encode_snapshot(&records).unwrap();
    assert_eq!(
        text,
        "[\n  {\n    \"State\": \"KS\",\n    \"Zip\": \"66101\"\n  },\n  {}\n]"
    );
}

#[test]
fn encode_of_no_records() {
    assert_eq!(encode_snapshot(&Vec::new()).unwrap(), "[]");
}

#[test]
fn encode_escapes_text() {
    let records = vec![record(&[("Note", "say \"hi\"\n")])];
    let text = encode_snapshot(&records).unwrap();
    assert_eq!(text, "[\n  {\n    \"Note\": \"say \\\"hi\\\"\\n\"\n  }\n]");
}

#[test]
fn decode_reads_what_encode_wrote() {
    let records = vec![
        record(&[("State", "KS"), ("Zip", "66101"), ("County", "Wyandotte")]),
        record(&[("State", "MO"), ("Note", "a, \"b\"; é")]),
        record(&[]),
    ];
    let text = encode_snapshot(&records).unwrap();
    let back = decode_snapshot(&text).unwrap();
    assert_eq!(back.len(), records.len());
    for (a, b) in back.iter().zip(records.iter()) {
        assert_eq!(a.as_object(), b.as_object());
    }
}

#[test]
fn decode_reads_compact_json() {
    let back = decode_snapshot("[{\"State\":\"KS\"},{\"Zip\":\"1\",\"State\":\"MO\"}]").unwrap();
    assert_eq!(back.len(), 2);
    assert_eq!(back[0].get("State"), Some("KS".to_string()));
    assert_eq!(back[1].get("Zip"), Some("1".to_string()));
    assert_eq!(back[1].as_object().len(), 2);
}

#[test]
fn decode_refuses_what_is_no_snapshot() {
    assert!(decode_snapshot("").is_none());
    assert!(decode_snapshot("not json").is_none());
    assert!(decode_snapshot("[{\"State\": \"KS\"}").is_none());
    assert!(decode_snapshot("{\"State\": \"KS\"}").is_none());
    assert!(decode_snapshot("[1, 2]").is_none());
    assert!(decode_snapshot("[{\"Zip\": 66101}]").is_none());
    assert!(decode_snapshot("null").is_none());
}

#[test]
fn decode_of_an_empty_array() {
    assert!(decode_snapshot("[]").unwrap().is_empty());
}
