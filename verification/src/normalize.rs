//! From raw text to records: header discovery, column keys, and the
//! records that the data rows give.

use crate::delimiter::{chosen_delimiter, detect_delimiter, strip_bom, without_bom};
use crate::failure::Failure;
use crate::record::{Fields, Record};
use crate::text::{
    decimal, decimal_text, is_blank, is_blank_text, lemma_blank_iff_trims_to_nothing, same_text,
    trim, trimmed,
};
use crate::tokenizer::{csv_rows, tokenize};
use vstd::prelude::*;
use vstd::string::StringExecFns;

verus! {

/// The label that marks the header row: the row whose second cell holds it.
pub const HEADER_LABEL: &'static str = "Zip";

/// What the key of a column without a name starts with; the column's
/// zero-based index follows.
pub const COLUMN_PREFIX: &'static str = "column_";

/// The first of the two keys that no record keeps.
pub const RESERVED_COUNTRY: &'static str = "Country";

/// The second of the two keys that no record keeps: the key that the first
/// column gets where the header does not name it.
pub const RESERVED_FIRST_COLUMN: &'static str = "column_0";

/// What a table of cells gives.
#[derive(Debug, PartialEq, Eq)]
pub enum Table {
    /// No row of the table is a header.
    NoHeaderFound,
    /// The records of the rows after the first header row.
    Records(Vec<Record>),
}

/// A row is blank when each of its cells is; a row without cells is blank.
pub open spec fn row_is_blank(row: Seq<Seq<char>>) -> bool {
    forall|i: int| 0 <= i < row.len() ==> is_blank(#[trigger] row[i])
}

/// A row is a header when its second cell exists and trims to the label.
pub open spec fn is_header(row: Seq<Seq<char>>) -> bool {
    row.len() >= 2 && trimmed(row[1]) == HEADER_LABEL@
}

/// Whether `h` is the place of the first header row of `rows`.
pub open spec fn is_first_header(rows: Seq<Seq<Seq<char>>>, h: int) -> bool {
    &&& 0 <= h < rows.len()
    &&& is_header(rows[h])
    &&& forall|j: int| 0 <= j < h ==> !is_header(#[trigger] rows[j])
}

/// The place of the first header row of `rows`, if one of them is a header.
pub open spec fn header_position(rows: Seq<Seq<Seq<char>>>) -> Option<int>
    decreases rows.len(),
{
    if rows.len() == 0 {
        None
    } else {
        match header_position(rows.drop_last()) {
            Some(h) => Some(h),
            None => if is_header(rows.last()) {
                Some(rows.len() - 1)
            } else {
                None
            },
        }
    }
}

/// The key of a column that the header does not name: the prefix and the
/// decimal numeral of the column's index.
pub open spec fn synthetic_key(i: nat) -> Seq<char> {
    COLUMN_PREFIX@ + decimal(i)
}

/// The key of column `i` under `header`: the header's cell at `i`, trimmed,
/// where there is one and it is not blank; else the synthetic key of `i`.
pub open spec fn column_key(header: Seq<Seq<char>>, i: int) -> Seq<char> {
    if 0 <= i < header.len() && !is_blank(header[i]) {
        trimmed(header[i])
    } else {
        synthetic_key(i as nat)
    }
}

/// The fields that the first `n` cells of `row` give, cell by cell and in
/// order: each cell, trimmed, under the key of its column. Where two
/// columns share a key, the later cell stays.
pub open spec fn cell_fields(header: Seq<Seq<char>>, row: Seq<Seq<char>>, n: nat) -> Fields
    decreases n,
{
    if n == 0 {
        Map::empty()
    } else {
        cell_fields(header, row, (n - 1) as nat).insert(
            column_key(header, n - 1),
            trimmed(row[n - 1]),
        )
    }
}

/// `fields` without the two reserved keys.
pub open spec fn without_reserved(fields: Fields) -> Fields {
    fields.remove(RESERVED_COUNTRY@).remove(RESERVED_FIRST_COLUMN@)
}

/// Whether `fields` holds neither of the two reserved keys.
pub open spec fn lacks_reserved_keys(fields: Fields) -> bool {
    !fields.contains_key(RESERVED_COUNTRY@) && !fields.contains_key(RESERVED_FIRST_COLUMN@)
}

/// The record of the data row `row` under `header`.
pub open spec fn record_of(header: Seq<Seq<char>>, row: Seq<Seq<char>>) -> Fields {
    without_reserved(cell_fields(header, row, row.len()))
}

/// The rows of `rows` that are not blank, in order.
pub open spec fn kept_rows(rows: Seq<Seq<Seq<char>>>) -> Seq<Seq<Seq<char>>> {
    rows.filter(|row: Seq<Seq<char>>| !row_is_blank(row))
}

/// The records of `rows` under `header`, one for each row, in order.
pub open spec fn records_under(header: Seq<Seq<char>>, rows: Seq<Seq<Seq<char>>>) -> Seq<Fields> {
    rows.map_values(|row: Seq<Seq<char>>| record_of(header, row))
}

/// The records of a table. Blank rows are dropped first. Among the rows
/// that are left, the first header row is looked for: where there is none,
/// there are no records; else each row after it gives its record under it,
/// in order.
pub open spec fn records_of(rows: Seq<Seq<Seq<char>>>) -> Seq<Fields> {
    let kept = kept_rows(rows);
    match header_position(kept) {
        None => Seq::empty(),
        Some(h) => records_under(kept[h], kept.skip(h + 1)),
    }
}

/// The place in `rows` of the row that stands at `i` among its kept rows.
pub open spec fn kept_place(rows: Seq<Seq<Seq<char>>>, i: int) -> int
    decreases rows.len(),
{
    if rows.len() == 0 {
        0
    } else if !row_is_blank(rows.last()) && i == kept_rows(rows.drop_last()).len() {
        rows.len() - 1
    } else {
        kept_place(rows.drop_last(), i)
    }
}

/// The place in `rows` of the row that gives the record at `i`.
pub open spec fn record_place(rows: Seq<Seq<Seq<char>>>, i: int) -> int {
    match header_position(rows) {
        None => 0,
        Some(h) => h + 1 + kept_place(rows.skip(h + 1), i),
    }
}

/// What normalising `raw` gives: the records of the rows that the tokenizer
/// finds in `raw` without its byte-order mark, split at the delimiter that
/// its first line suggests; `None` where the tokenizer cannot decode it.
pub open spec fn normalized(raw: Seq<char>) -> Option<Seq<Fields>> {
    let text = without_bom(raw);
    match csv_rows(text, chosen_delimiter(text).code()) {
        Some(rows) => Some(records_of(rows)),
        None => None,
    }
}

/// What `normalize` owes for the raw text `raw`: the records that `raw`
/// normalises to, or `DecodeFailure` where it normalises to none.
pub open spec fn normalizes_to(raw: Seq<char>, r: Result<Vec<Record>, Failure>) -> bool {
    match r {
        Ok(records) => normalized(raw) == Some(records.deep_view()),
        Err(e) => e == Failure::DecodeFailure && normalized(raw) is None,
    }
}

/// `header_position` finds the first header row, and finds none only where
/// there is none.
pub proof fn lemma_header_position(rows: Seq<Seq<Seq<char>>>)
    ensures
        match header_position(rows) {
            Some(h) => is_first_header(rows, h),
            None => forall|j: int| 0 <= j < rows.len() ==> !is_header(#[trigger] rows[j]),
        },
    decreases rows.len(),
{
    if rows.len() > 0 {
        let front = rows.drop_last();
        lemma_header_position(front);
        match header_position(front) {
            Some(h) => {
                assert(rows[h] == front[h]);
                assert forall|j: int| 0 <= j < h implies !is_header(#[trigger] rows[j]) by {
                    assert(rows[j] == front[j]);
                }
            },
            None => {
                assert forall|j: int| 0 <= j < rows.len() - 1 implies !is_header(
                    #[trigger] rows[j],
                ) by {
                    assert(rows[j] == front[j]);
                }
            },
        }
    }
}

/// The first header row is what `header_position` gives.
pub proof fn lemma_first_header_is_position(rows: Seq<Seq<Seq<char>>>, h: int)
    requires
        is_first_header(rows, h),
    ensures
        header_position(rows) == Some(h),
{
    lemma_header_position(rows);
}

/// The second reserved key is the synthetic key of the first column.
pub proof fn lemma_first_synthetic_key()
    ensures
        synthetic_key(0) == RESERVED_FIRST_COLUMN@,
{
    reveal_strlit("column_");
    reveal_strlit("column_0");
    assert(synthetic_key(0) =~= RESERVED_FIRST_COLUMN@);
}

/// A header row is not blank: its second cell holds the label.
pub proof fn lemma_header_is_not_blank(row: Seq<Seq<char>>)
    requires
        is_header(row),
    ensures
        !row_is_blank(row),
{
    reveal_strlit("Zip");
    lemma_blank_iff_trims_to_nothing(row[1]);
    assert(!is_blank(row[1]));
}

/// One more row is kept where it is not blank, and dropped where it is.
pub proof fn lemma_kept_rows_push(rows: Seq<Seq<Seq<char>>>, row: Seq<Seq<char>>)
    ensures
        kept_rows(rows.push(row)) == if row_is_blank(row) {
            kept_rows(rows)
        } else {
            kept_rows(rows).push(row)
        },
{
    rows.lemma_filter_push(row, |row: Seq<Seq<char>>| !row_is_blank(row));
}

/// Dropping the blank rows moves the first header row and keeps it first:
/// it stands behind the kept rows among those before it, and the kept rows
/// after it are the rows after it that are kept.
pub proof fn lemma_header_among_kept_rows(rows: Seq<Seq<Seq<char>>>)
    ensures
        match header_position(rows) {
            None => header_position(kept_rows(rows)) is None,
            Some(h) => {
                let k = kept_rows(rows.take(h)).len() as int;
                &&& header_position(kept_rows(rows)) == Some(k)
                &&& k < kept_rows(rows).len()
                &&& kept_rows(rows)[k] == rows[h]
                &&& kept_rows(rows).skip(k + 1) == kept_rows(rows.skip(h + 1))
            },
        },
    decreases rows.len(),
{
    if rows.len() == 0 {
        reveal(Seq::filter);
    } else {
        let front = rows.drop_last();
        let last = rows.last();
        assert(rows =~= front.push(last));
        lemma_header_among_kept_rows(front);
        lemma_kept_rows_push(front, last);
        lemma_header_position(front);
        lemma_header_position(rows);
        lemma_header_position(kept_rows(front));
        let kept = kept_rows(rows);
        match header_position(front) {
            Some(h) => {
                let k = kept_rows(front.take(h)).len() as int;
                assert(front.take(h) =~= rows.take(h));
                assert(rows.skip(h + 1) =~= front.skip(h + 1).push(last));
                lemma_kept_rows_push(front.skip(h + 1), last);
                if !row_is_blank(last) {
                    assert(kept.drop_last() =~= kept_rows(front));
                    assert(kept.skip(k + 1) =~= kept_rows(front).skip(k + 1).push(last));
                }
            },
            None => {
                if is_header(last) {
                    lemma_header_is_not_blank(last);
                    let h = rows.len() - 1;
                    assert(rows.take(h) =~= front);
                    assert(kept.drop_last() =~= kept_rows(front));
                    assert(rows.skip(h + 1) =~= Seq::empty());
                    assert(kept_rows(rows.skip(h + 1)) =~= Seq::empty()) by {
                        reveal(Seq::filter);
                    }
                    assert(kept.skip(kept.len() as int) =~= Seq::empty());
                } else if !row_is_blank(last) {
                    assert(kept.drop_last() =~= kept_rows(front));
                }
            },
        }
    }
}

/// The header search need not drop the blank rows first: the records of a
/// table are those of the rows after its first header row that are not
/// blank.
pub proof fn lemma_records_after_first_header(rows: Seq<Seq<Seq<char>>>)
    ensures
        records_of(rows) == match header_position(rows) {
            None => Seq::<Fields>::empty(),
            Some(h) => records_under(rows[h], kept_rows(rows.skip(h + 1))),
        },
{
    lemma_header_among_kept_rows(rows);
}

/// The row at `i` among the kept rows is a row of the table that is not
/// blank, and it stands where `kept_place` says.
pub proof fn lemma_kept_place(rows: Seq<Seq<Seq<char>>>, i: int)
    requires
        0 <= i < kept_rows(rows).len(),
    ensures
        0 <= kept_place(rows, i) < rows.len(),
        rows[kept_place(rows, i)] == kept_rows(rows)[i],
        !row_is_blank(rows[kept_place(rows, i)]),
    decreases rows.len(),
{
    if rows.len() == 0 {
        reveal(Seq::filter);
    } else {
        let front = rows.drop_last();
        assert(rows =~= front.push(rows.last()));
        lemma_kept_rows_push(front, rows.last());
        if row_is_blank(rows.last()) || i != kept_rows(front).len() {
            lemma_kept_place(front, i);
        }
    }
}

/// The kept rows stand in the order of the rows.
pub proof fn lemma_kept_rows_in_order(rows: Seq<Seq<Seq<char>>>, i: int, j: int)
    requires
        0 <= i < j < kept_rows(rows).len(),
    ensures
        kept_place(rows, i) < kept_place(rows, j),
    decreases rows.len(),
{
    if rows.len() == 0 {
        reveal(Seq::filter);
    } else {
        let front = rows.drop_last();
        assert(rows =~= front.push(rows.last()));
        lemma_kept_rows_push(front, rows.last());
        if !row_is_blank(rows.last()) && j == kept_rows(front).len() {
            lemma_kept_place(front, i);
        } else {
            lemma_kept_rows_in_order(front, i, j);
        }
    }
}

/// Each record is the record of a row that stands after the first header
/// row and is not blank, under that header row.
pub proof fn lemma_record_place(rows: Seq<Seq<Seq<char>>>, i: int)
    requires
        0 <= i < records_of(rows).len(),
    ensures
        header_position(rows) matches Some(h) && h < record_place(rows, i) < rows.len()
            && !row_is_blank(rows[record_place(rows, i)]) && records_of(rows)[i] == record_of(
            rows[h],
            rows[record_place(rows, i)],
        ),
{
    lemma_records_after_first_header(rows);
    lemma_header_position(rows);
    let h = header_position(rows)->0;
    lemma_kept_place(rows.skip(h + 1), i);
}

/// The records stand in the order of the rows that give them.
pub proof fn lemma_records_in_row_order(rows: Seq<Seq<Seq<char>>>, i: int, j: int)
    requires
        0 <= i < j < records_of(rows).len(),
    ensures
        record_place(rows, i) < record_place(rows, j),
{
    lemma_records_after_first_header(rows);
    lemma_header_position(rows);
    let h = header_position(rows)->0;
    lemma_kept_rows_in_order(rows.skip(h + 1), i, j);
}

/// A table in which no row is a header gives no records.
pub proof fn lemma_no_header_gives_no_records(rows: Seq<Seq<Seq<char>>>)
    requires
        forall|j: int| 0 <= j < rows.len() ==> !is_header(#[trigger] rows[j]),
    ensures
        records_of(rows) == Seq::<Fields>::empty(),
{
    lemma_header_position(rows);
    lemma_records_after_first_header(rows);
}

/// A text whose rows hold no header normalises to no records, and not to
/// an error.
pub proof fn lemma_no_header_normalizes_to_nothing(raw: Seq<char>, rows: Seq<Seq<Seq<char>>>)
    requires
        csv_rows(without_bom(raw), chosen_delimiter(without_bom(raw)).code()) == Some(rows),
        forall|j: int| 0 <= j < rows.len() ==> !is_header(#[trigger] rows[j]),
    ensures
        normalized(raw) == Some(Seq::<Fields>::empty()),
{
    lemma_no_header_gives_no_records(rows);
}

/// The keys of the fields that the first `n` cells give are the keys of the
/// first `n` columns.
pub proof fn lemma_cell_fields_keys(
    header: Seq<Seq<char>>,
    row: Seq<Seq<char>>,
    n: nat,
    key: Seq<char>,
)
    ensures
        cell_fields(header, row, n).contains_key(key) <==> exists|i: int|
            0 <= i < n && #[trigger] column_key(header, i) == key,
    decreases n,
{
    if n > 0 {
        lemma_cell_fields_keys(header, row, (n - 1) as nat, key);
        if cell_fields(header, row, n).contains_key(key) {
            if column_key(header, n - 1) == key {
            } else {
                let i = choose|i: int| 0 <= i < n - 1 && #[trigger] column_key(header, i) == key;
                assert(0 <= i < n && column_key(header, i) == key);
            }
        }
        if exists|i: int| 0 <= i < n && #[trigger] column_key(header, i) == key {
            let i = choose|i: int| 0 <= i < n && #[trigger] column_key(header, i) == key;
            if i < n - 1 {
                assert(0 <= i < n - 1 && column_key(header, i) == key);
            }
        }
    }
}

/// The last cell under a key is the one whose text stays.
pub proof fn lemma_cell_fields_value(
    header: Seq<Seq<char>>,
    row: Seq<Seq<char>>,
    n: nat,
    i: int,
)
    requires
        0 <= i < n,
        forall|j: int| i < j < n ==> #[trigger] column_key(header, j) != column_key(header, i),
    ensures
        cell_fields(header, row, n).contains_key(column_key(header, i)),
        cell_fields(header, row, n)[column_key(header, i)] == trimmed(row[i]),
    decreases n,
{
    if i < n - 1 {
        lemma_cell_fields_value(header, row, (n - 1) as nat, i);
        assert(column_key(header, n - 1) != column_key(header, i));
    }
}

/// No record holds a reserved key, whatever the header names its columns.
pub proof fn lemma_record_lacks_reserved_keys(header: Seq<Seq<char>>, row: Seq<Seq<char>>)
    ensures
        lacks_reserved_keys(record_of(header, row)),
{
}

/// A record has a field for a key exactly where the key is not reserved and
/// is the key of a column that the row has a cell in. The row's own length
/// decides: a column that the row is too short for gives no field, and a
/// cell beyond the header gets its synthetic key.
pub proof fn lemma_record_keys(header: Seq<Seq<char>>, row: Seq<Seq<char>>, key: Seq<char>)
    ensures
        record_of(header, row).contains_key(key) <==> {
            &&& key != RESERVED_COUNTRY@
            &&& key != RESERVED_FIRST_COLUMN@
            &&& exists|i: int| 0 <= i < row.len() && #[trigger] column_key(header, i) == key
        },
{
    lemma_cell_fields_keys(header, row, row.len(), key);
}

/// The field of a column whose key is not reserved, and is not the key of a
/// later column of the row, holds the trimmed text of the row's cell there.
pub proof fn lemma_record_value(header: Seq<Seq<char>>, row: Seq<Seq<char>>, i: int)
    requires
        0 <= i < row.len(),
        column_key(header, i) != RESERVED_COUNTRY@,
        column_key(header, i) != RESERVED_FIRST_COLUMN@,
        forall|j: int|
            i < j < row.len() ==> #[trigger] column_key(header, j) != column_key(header, i),
    ensures
        record_of(header, row).contains_key(column_key(header, i)),
        record_of(header, row)[column_key(header, i)] == trimmed(row[i]),
{
    lemma_cell_fields_value(header, row, row.len(), i);
}

/// Every record of a table is the record of one of its rows under its
/// first header row, so none holds a reserved key.
pub proof fn lemma_records_lack_reserved_keys(rows: Seq<Seq<Seq<char>>>, i: int)
    requires
        0 <= i < records_of(rows).len(),
    ensures
        lacks_reserved_keys(records_of(rows)[i]),
{
    let kept = kept_rows(rows);
    let h = header_position(kept)->0;
    assert(records_of(rows)[i] == record_of(kept[h], kept.skip(h + 1)[i]));
    lemma_record_lacks_reserved_keys(kept[h], kept.skip(h + 1)[i]);
}

/// One byte-order mark in front of a text that starts with none changes
/// nothing in what the text normalises to.
pub proof fn lemma_bom_is_ignored(raw: Seq<char>)
    requires
        raw.len() == 0 || raw.first() != crate::delimiter::BYTE_ORDER_MARK,
    ensures
        normalized(seq![crate::delimiter::BYTE_ORDER_MARK] + raw) == normalized(raw),
{
    let marked = seq![crate::delimiter::BYTE_ORDER_MARK] + raw;
    assert(marked.drop_first() =~= raw);
}

/// Normalising is a function of the raw text: whatever two runs on the same
/// text return, both fail in the same way, or both give the same records in
/// the same order.
pub proof fn lemma_normalize_is_repeatable(
    raw: Seq<char>,
    first: Result<Vec<Record>, Failure>,
    second: Result<Vec<Record>, Failure>,
)
    requires
        normalizes_to(raw, first),
        normalizes_to(raw, second),
    ensures
        match (first, second) {
            (Ok(a), Ok(b)) => a.deep_view() == b.deep_view(),
            (Err(a), Err(b)) => a == b,
            _ => false,
        },
{
}

/// Tells whether every cell of `row` is blank.
pub fn is_blank_row(row: &Vec<String>) -> (r: bool)
    ensures
        r == row_is_blank(row.deep_view()),
{
    let mut i: usize = 0;
    while i < row.len()
        invariant
            i <= row.len(),
            forall|j: int| 0 <= j < i ==> is_blank(#[trigger] row.deep_view()[j]),
        decreases row.len() - i,
    {
        if !is_blank_text(row[i].as_str()) {
            assert(!is_blank(row.deep_view()[i as int]));
            return false;
        }
        i += 1;
    }
    true
}

/// Tells whether `row` is a header: whether its second cell exists and
/// trims to the label.
pub fn is_header_row(row: &Vec<String>) -> (r: bool)
    ensures
        r == is_header(row.deep_view()),
{
    if row.len() < 2 {
        return false;
    }
    assert(row.deep_view()[1] == row@[1]@);
    same_text(trim(row[1].as_str()), HEADER_LABEL)
}

/// Finds the first header row.
pub fn find_header(rows: &Vec<Vec<String>>) -> (r: Option<usize>)
    ensures
        match r {
            Some(h) => h < rows.len() && header_position(rows.deep_view()) == Some(h as int),
            None => header_position(rows.deep_view()) is None,
        },
{
    let mut i: usize = 0;
    while i < rows.len()
        invariant
            i <= rows.len(),
            forall|j: int| 0 <= j < i ==> !is_header(#[trigger] rows.deep_view()[j]),
        decreases rows.len() - i,
    {
        assert(rows.deep_view()[i as int] == rows@[i as int].deep_view());
        if is_header_row(&rows[i]) {
            proof {
                lemma_first_header_is_position(rows.deep_view(), i as int);
            }
            return Some(i);
        }
        i += 1;
    }
    proof {
        lemma_header_position(rows.deep_view());
    }
    None
}

/// The key of column `i` under `header`.
pub fn key_for_column(header: &Vec<String>, i: usize) -> (key: String)
    ensures
        key@ == column_key(header.deep_view(), i as int),
{
    if i < header.len() {
        assert(header.deep_view()[i as int] == header@[i as int]@);
        let name = trim(header[i].as_str());
        proof {
            lemma_blank_iff_trims_to_nothing(header@[i as int]@);
        }
        if name.unicode_len() > 0 {
            return String::from_str(name);
        }
    }
    let mut key = String::from_str(COLUMN_PREFIX);
    let index = decimal_text(i);
    key.append(index.as_str());
    key
}

/// Builds the record of the data row `row` under `header`: each cell,
/// trimmed, under the key of its column, and the two reserved keys removed.
pub fn build_record(header: &Vec<String>, row: &Vec<String>) -> (record: Record)
    ensures
        record@ == record_of(header.deep_view(), row.deep_view()),
{
    let mut record = Record::new();
    let mut i: usize = 0;
    while i < row.len()
        invariant
            i <= row.len(),
            record@ == cell_fields(header.deep_view(), row.deep_view(), i as nat),
        decreases row.len() - i,
    {
        assert(row.deep_view()[i as int] == row@[i as int]@);
        let key = key_for_column(header, i);
        let value = String::from_str(trim(row[i].as_str()));
        record.insert(key, value);
        i += 1;
    }
    record.remove(RESERVED_COUNTRY);
    record.remove(RESERVED_FIRST_COLUMN);
    record
}

/// Reads a table of cells: finds the first header row and builds one
/// record for each later row that is not blank, in order. A table without a
/// header row is told apart from a table whose header no data row follows.
pub fn read_table(rows: &Vec<Vec<String>>) -> (table: Table)
    ensures
        match table {
            Table::NoHeaderFound => header_position(rows.deep_view()) is None && records_of(
                rows.deep_view(),
            ).len() == 0,
            Table::Records(records) => header_position(rows.deep_view()) is Some
                && records.deep_view() == records_of(rows.deep_view()),
        },
{
    proof {
        lemma_records_after_first_header(rows.deep_view());
    }
    match find_header(rows) {
        None => Table::NoHeaderFound,
        Some(h) => {
            let mut records: Vec<Record> = Vec::new();
            let header = &rows[h];
            let ghost table = rows.deep_view();
            assert(table[h as int] == header.deep_view());
            let mut i: usize = h + 1;
            assert(records.deep_view() =~= records_under(
                header.deep_view(),
                kept_rows(table.subrange(h + 1, i as int)),
            )) by {
                reveal(Seq::filter);
            }
            while i < rows.len()
                invariant
                    h < i <= rows.len(),
                    table == rows.deep_view(),
                    records.deep_view() == records_under(
                        header.deep_view(),
                        kept_rows(table.subrange(h + 1, i as int)),
                    ),
                decreases rows.len() - i,
            {
                let ghost before = records.deep_view();
                proof {
                    assert(table[i as int] == rows@[i as int].deep_view());
                    assert(table.subrange(h + 1, i + 1) =~= table.subrange(h + 1, i as int).push(
                        table[i as int],
                    ));
                    lemma_kept_rows_push(table.subrange(h + 1, i as int), table[i as int]);
                }
                if !is_blank_row(&rows[i]) {
                    let record = build_record(header, &rows[i]);
                    records.push(record);
                    assert(records.deep_view() =~= before.push(record@));
                    assert(records.deep_view() =~= records_under(
                        header.deep_view(),
                        kept_rows(table.subrange(h + 1, i + 1)),
                    ));
                }
                i += 1;
            }
            assert(table.subrange(h + 1, i as int) =~= table.skip(h + 1));
            Table::Records(records)
        },
    }
}

/// The records of a table of cells: none where no row is a header; else one
/// for each row after the first header row that is not blank, in order. No
/// record holds a reserved key.
pub fn records_from_rows(rows: &Vec<Vec<String>>) -> (records: Vec<Record>)
    ensures
        records.deep_view() == records_of(rows.deep_view()),
        forall|i: int|
            0 <= i < records.len() ==> lacks_reserved_keys(#[trigger] records.deep_view()[i]),
{
    let records = match read_table(rows) {
        Table::NoHeaderFound => Vec::new(),
        Table::Records(found) => found,
    };
    proof {
        assert(records.deep_view() =~= records_of(rows.deep_view()));
        assert forall|i: int| 0 <= i < records.len() implies lacks_reserved_keys(
            #[trigger] records.deep_view()[i],
        ) by {
            lemma_records_lack_reserved_keys(rows.deep_view(), i);
        }
    }
    records
}

/// Normalises the raw text of an export into records.
///
/// One leading byte-order mark is dropped. The delimiter is the semicolon
/// where the first line holds more semicolons than commas, else the comma.
/// The text is split into rows at that delimiter; the rows before the first
/// header row, and that row, give no record; every later row that is not
/// blank gives one. A table without a header row gives no records and no
/// error. No record holds a reserved key. The call fails, with
/// `DecodeFailure` and without records, exactly where the tokenizer cannot
/// decode the text.
pub fn normalize(raw: &str) -> (r: Result<Vec<Record>, Failure>)
    ensures
        normalizes_to(raw@, r),
        r matches Ok(records) ==> forall|i: int|
            0 <= i < records.len() ==> lacks_reserved_keys(#[trigger] records.deep_view()[i]),
{
    let text = strip_bom(raw);
    let delimiter = detect_delimiter(text);
    match tokenize(text, delimiter) {
        Ok(rows) => Ok(records_from_rows(&rows)),
        Err(e) => Err(e),
    }
}

} // verus!
