use sheet_ingest::failure::Failure;
use sheet_ingest::normalize::{
    build_record, find_header, is_blank_row, is_header_row, key_for_column, normalize,
    read_table, records_from_rows, Table, COLUMN_PREFIX, HEADER_LABEL, RESERVED_COUNTRY,
    RESERVED_FIRST_COLUMN,
};
use sheet_ingest::record::Record;

fn row(cells: &[&str]) -> Vec<String> {
    cells.iter().map(|c| c.to_string()).collect()
}

fn table(rows: &[&[&str]]) -> Vec<Vec<String>> {
    rows.iter().map(|r| row(r)).collect()
}

fn object(pairs: &[(&str, &str)]) -> serde_json::Map<String, serde_json::Value> {
    let mut map = serde_json::Map::new();
    for (k, v) in pairs {
        map.insert(k.to_string(), serde_json::Value::String(v.to_string()));
    }
    map
}

fn assert_records(records: &[Record], expected: &[&[(&str, &str)]]) {
    assert_eq!(records.len(), expected.len());
    for (record, pairs) in records.iter().zip(expected.iter()) {
        assert_eq!(record.as_object(), &object(pairs));
    }
}

#[test]
fn title_row_then_header_then_data() {
    let records = normalize("Title Row\nState,Zip,County\nKS,66101,Wyandotte\n").unwrap();
    assert_records(
        &records,
        &[&[("State", "KS"), ("Zip", "66101"), ("County", "Wyandotte")]],
    );
}

#[test]
fn bom_prefix_changes_nothing() {
    let plain = "Title Row\nState,Zip,County\nKS,66101,Wyandotte\nMO,64101,Jackson\n";
    let marked = format!("\u{feff}{}", plain);
    let a = normalize(plain).unwrap();
    let b = normalize(&marked).unwrap();
    assert_eq!(a.len(), 2);
    assert_eq!(a.len(), b.len());
    for (x, y) in a.iter().zip(b.iter()) {
        assert_eq!(x.as_object(), y.as_object());
    }
}

#[test]
fn bom_before_header_row_is_not_part_of_the_first_cell() {
    let records = normalize("\u{feff}State;Zip\nKS;66101\n").unwrap();
    assert_records(&records, &[&[("State", "KS"), ("Zip", "66101")]]);
}

#[test]
fn short_data_row_lacks_the_trailing_key() {
    let records = normalize("State,Zip,County\nKS,66101\n").unwrap();
    assert_eq!(records.len(), 1);
    assert!(!records[0].contains_key("County"));
    assert!(!records[0].contains_key("column_2"));
    assert_records(&records, &[&[("State", "KS"), ("Zip", "66101")]]);
}

#[test]
fn long_data_row_gets_synthetic_keys() {
    let records = normalize("State,Zip\nKS,66101,Wyandotte,extra\n").unwrap();
    assert_records(
        &records,
        &[&[("State", "KS"), ("Zip", "66101"), ("column_2", "Wyandotte"), ("column_3", "extra")]],
    );
}

#[test]
fn no_header_gives_no_records() {
    let records = normalize("a,b,c\n1,2,3\n4,5,6\n").unwrap();
    assert!(records.is_empty());
}

#[test]
fn empty_text_gives_no_records() {
    assert!(normalize("").unwrap().is_empty());
    assert!(normalize("\u{feff}").unwrap().is_empty());
    assert!(normalize("\n\n").unwrap().is_empty());
}

#[test]
fn header_alone_gives_no_records() {
    assert!(normalize("State,Zip,County\n").unwrap().is_empty());
}

#[test]
fn label_must_stand_in_the_second_cell() {
    assert!(normalize("Zip,State\n66101,KS\n").unwrap().is_empty());
    assert!(normalize("State,County,Zip\nKS,Wyandotte,66101\n").unwrap().is_empty());
    assert!(normalize("State,Zipcode\nKS,66101\n").unwrap().is_empty());
    assert!(normalize("State,zip\nKS,66101\n").unwrap().is_empty());
}

#[test]
fn label_is_compared_after_trimming() {
    let records = normalize("State,  Zip \t,County\nKS,66101,Wyandotte\n").unwrap();
    assert_records(
        &records,
        &[&[("State", "KS"), ("Zip", "66101"), ("County", "Wyandotte")]],
    );
}

#[test]
fn rows_before_the_header_are_dropped() {
    let text = "Bans by area\nupdated,2024\nx\nState,Zip\nKS,66101\n";
    let records = normalize(text).unwrap();
    assert_records(&records, &[&[("State", "KS"), ("Zip", "66101")]]);
}

#[test]
fn blank_rows_are_dropped() {
    let text = ",,\nState,Zip,County\n , ,\nKS,66101,Wyandotte\n,,\n\nMO,64101,Jackson\n";
    let records = normalize(text).unwrap();
    assert_records(
        &records,
        &[
            &[("State", "KS"), ("Zip", "66101"), ("County", "Wyandotte")],
            &[("State", "MO"), ("Zip", "64101"), ("County", "Jackson")],
        ],
    );
}

#[test]
fn row_order_is_kept() {
    let text = "State,Zip\nC,3\nA,1\nB,2\n";
    let records = normalize(text).unwrap();
    let states: Vec<String> = records.iter().map(|r| r.get("State").unwrap()).collect();
    assert_eq!(states, vec!["C", "A", "B"]);
}

#[test]
fn a_second_header_row_is_data() {
    let records = normalize("State,Zip\nState,Zip\n").unwrap();
    assert_records(&records, &[&[("State", "State"), ("Zip", "Zip")]]);
}

#[test]
fn semicolon_is_chosen_when_more_frequent() {
    let records = normalize("State;Zip;County\nKS;66101;Wyandotte, east\n").unwrap();
    assert_records(
        &records,
        &[&[("State", "KS"), ("Zip", "66101"), ("County", "Wyandotte, east")]],
    );
}

#[test]
fn tie_goes_to_the_comma() {
    // one comma and one semicolon in the first line
    let records = normalize("State;one,Zip\nKS;1,66101\n").unwrap();
    assert_records(&records, &[&[("State;one", "KS;1"), ("Zip", "66101")]]);
}

#[test]
fn delimiter_is_fixed_by_the_first_line_alone() {
    // the first line is a title without delimiters: comma; later rows with
    // semicolons are single cells and never a header
    let records = normalize("Title\nState;Zip;County\nKS;66101;Wyandotte\n").unwrap();
    assert!(records.is_empty());
}

#[test]
fn reserved_keys_are_removed() {
    let text = "Country,Zip,State\nUS,66101,KS\n";
    let records = normalize(text).unwrap();
    assert_eq!(records.len(), 1);
    assert!(!records[0].contains_key("Country"));
    assert_records(&records, &[&[("Zip", "66101"), ("State", "KS")]]);
}

#[test]
fn unnamed_first_column_is_removed() {
    let text = ",Zip,State\n17,66101,KS\n";
    let records = normalize(text).unwrap();
    assert_eq!(records.len(), 1);
    assert!(!records[0].contains_key("column_0"));
    assert_records(&records, &[&[("Zip", "66101"), ("State", "KS")]]);
}

#[test]
fn column_named_like_the_first_synthetic_key_is_removed() {
    let text = "State,Zip,column_0\nKS,66101,x\n";
    let records = normalize(text).unwrap();
    assert_records(&records, &[&[("State", "KS"), ("Zip", "66101")]]);
}

#[test]
fn blank_header_cell_gets_a_synthetic_key() {
    let text = "State,Zip,  ,County\nKS,66101,x,Wyandotte\n";
    let records = normalize(text).unwrap();
    assert_records(
        &records,
        &[&[("State", "KS"), ("Zip", "66101"), ("column_2", "x"), ("County", "Wyandotte")]],
    );
}

#[test]
fn keys_and_values_are_trimmed() {
    let text = " State ,Zip, County\t\n  KS , 66101 ,\u{a0}Wyandotte\u{3000}\n";
    let records = normalize(text).unwrap();
    assert_records(
        &records,
        &[&[("State", "KS"), ("Zip", "66101"), ("County", "Wyandotte")]],
    );
}

#[test]
fn later_cell_wins_under_a_repeated_key() {
    let text = "Name,Zip,Name\nfirst,66101,second\n";
    let records = normalize(text).unwrap();
    assert_records(&records, &[&[("Name", "second"), ("Zip", "66101")]]);
}

#[test]
fn synthetic_key_can_collide_with_a_named_column() {
    // the third column is named like the synthetic key of the fourth
    let text = "State,Zip,column_3\nKS,66101,named,overflow\n";
    let records = normalize(text).unwrap();
    assert_records(
        &records,
        &[&[("State", "KS"), ("Zip", "66101"), ("column_3", "overflow")]],
    );
}

#[test]
fn synthetic_keys_count_in_decimal() {
    let header = row(&["a", "Zip"]);
    let data: Vec<String> = (0..12).map(|i| format!("v{}", i)).collect();
    let record = build_record(&header, &data);
    assert_eq!(record.get("column_9"), Some("v9".to_string()));
    assert_eq!(record.get("column_10"), Some("v10".to_string()));
    assert_eq!(record.get("column_11"), Some("v11".to_string()));
    assert_eq!(record.as_object().len(), 12);
}

#[test]
fn quoted_cells_keep_their_delimiters() {
    let text = "State,Zip,Note\nKS,66101,\"a, b\"\n";
    let records = normalize(text).unwrap();
    assert_records(&records, &[&[("State", "KS"), ("Zip", "66101"), ("Note", "a, b")]]);
}

#[test]
fn normalize_twice_gives_the_same() {
    let text = "Title\nState,Zip,County\nKS,66101,Wyandotte\n\nMO,64101\n";
    let a = normalize(text).unwrap();
    let b = normalize(text).unwrap();
    assert_eq!(a.len(), b.len());
    for (x, y) in a.iter().zip(b.iter()) {
        assert_eq!(x.as_object(), y.as_object());
    }
}

#[test]
fn normalize_never_reports_a_fetch_failure() {
    for text in ["", "a", "State,Zip\n\"open", "State,Zip\nKS,\"66\"101\n"] {
        match normalize(text) {
            Ok(_) => {}
            Err(e) => assert_eq!(e, Failure::DecodeFailure),
        }
    }
}

#[test]
fn blank_row_is_recognised() {
    assert!(is_blank_row(&row(&[])));
    assert!(is_blank_row(&row(&[""])));
    assert!(is_blank_row(&row(&["", " ", "\t", "\u{2003}"])));
    assert!(!is_blank_row(&row(&["", "x", ""])));
    assert!(!is_blank_row(&row(&["\u{feff}"])));
}

#[test]
fn header_row_is_recognised() {
    assert!(is_header_row(&row(&["State", "Zip"])));
    assert!(is_header_row(&row(&["", " Zip ", "", ""])));
    assert!(!is_header_row(&row(&["Zip"])));
    assert!(!is_header_row(&row(&[])));
    assert!(!is_header_row(&row(&["Zip", "State"])));
    assert!(!is_header_row(&row(&["State", "Z ip"])));
    assert!(!is_header_row(&row(&["State", "ZIP"])));
}

#[test]
fn first_header_is_found() {
    assert_eq!(find_header(&table(&[])), None);
    assert_eq!(find_header(&table(&[&["a"], &["b", "c"]])), None);
    assert_eq!(find_header(&table(&[&["a", "Zip"]])), Some(0));
    assert_eq!(
        find_header(&table(&[&["t"], &[], &["a", "Zip"], &["b", "Zip"]])),
        Some(2)
    );
}

#[test]
fn column_keys_follow_the_header() {
    let header = row(&["State", " Zip ", "", "  "]);
    assert_eq!(key_for_column(&header, 0), "State");
    assert_eq!(key_for_column(&header, 1), "Zip");
    assert_eq!(key_for_column(&header, 2), "column_2");
    assert_eq!(key_for_column(&header, 3), "column_3");
    assert_eq!(key_for_column(&header, 4), "column_4");
    assert_eq!(key_for_column(&header, 120), "column_120");
    assert_eq!(key_for_column(&row(&[]), 0), "column_0");
}

#[test]
fn record_of_an_empty_row_is_empty() {
    let record = build_record(&row(&["State", "Zip"]), &row(&[]));
    assert!(record.as_object().is_empty());
}

#[test]
fn records_from_rows_skips_preamble_and_blank_rows() {
    let rows = table(&[
        &["Title"],
        &["", ""],
        &["State", "Zip", "Country"],
        &["KS", "66101", "US"],
        &[" ", ""],
        &["MO"],
    ]);
    let records = records_from_rows(&rows);
    assert_records(&records, &[&[("State", "KS"), ("Zip", "66101")], &[("State", "MO")]]);
}

#[test]
fn table_without_header_is_told_apart_from_header_without_data() {
    assert_eq!(read_table(&table(&[])), Table::NoHeaderFound);
    assert_eq!(read_table(&table(&[&["a", "b"], &["1", "2"]])), Table::NoHeaderFound);
    assert_eq!(read_table(&table(&[&["State", "Zip"]])), Table::Records(Vec::new()));
    assert_eq!(
        read_table(&table(&[&["State", "Zip"], &["", " "]])),
        Table::Records(Vec::new())
    );
}

#[test]
fn read_table_builds_the_records_after_the_header() {
    let rows = table(&[&["t"], &["State", "Zip"], &["KS", "66101"], &[""], &["MO", "64101"]]);
    match read_table(&rows) {
        Table::Records(records) => assert_records(
            &records,
            &[&[("State", "KS"), ("Zip", "66101")], &[("State", "MO"), ("Zip", "64101")]],
        ),
        Table::NoHeaderFound => panic!("the header was not found"),
    }
}

#[test]
fn configuration_constants() {
    assert_eq!(HEADER_LABEL, "Zip");
    assert_eq!(COLUMN_PREFIX, "column_");
    assert_eq!(RESERVED_COUNTRY, "Country");
    assert_eq!(RESERVED_FIRST_COLUMN, "column_0");
    assert_eq!(key_for_column(&row(&[]), 0), RESERVED_FIRST_COLUMN);
}
