//! The position file: the table as a JSON array with one row for each
//! LED, which holds the status tag, the front view and the side view.

use crate::positions::{ScanEntry, Status};
use vstd::prelude::*;

verus! {

/// The error type of the JSON library.
#[verifier::external_type_specification]
#[verifier::external_body]
pub struct ExJsonError(serde_json::Error);

/// A row of the position file as the JSON library reads and writes it.
pub type Row = (String, (i32, i32), Option<(i32, i32)>);

/// A row as plain values.
pub type PlainRow = (Seq<char>, (int, int), Option<(int, int)>);

/// The pretty-printed JSON text that the JSON library writes for rows.
pub uninterp spec fn pretty_json(rows: Seq<PlainRow>) -> Seq<char>;

/// The rows that the JSON library reads from a text; `None` where it
/// refuses the text.
pub uninterp spec fn json_rows(text: Seq<char>) -> Option<Seq<PlainRow>>;

/// Why a position file could not be read.
#[derive(Clone, Copy, Debug, PartialEq, Eq, Structural)]
pub enum TableError {
    /// The text is not a JSON array of rows.
    Syntax,
    /// The row `row`, counted from zero, holds a tag that is no status.
    UnknownStatus { row: usize },
}

/// The plain values of a row.
pub open spec fn plain_row(row: Row) -> PlainRow {
    (
        row.0@,
        (row.1.0 as int, row.1.1 as int),
        match row.2 {
            Some(side) => Some((side.0 as int, side.1 as int)),
            None => None,
        },
    )
}

/// The plain values of a run of rows.
pub open spec fn plain_rows(rows: Seq<Row>) -> Seq<PlainRow> {
    Seq::new(rows.len(), |i: int| plain_row(rows[i]))
}

/// The tag that stands for a status in the position file.
pub open spec fn tag_of(status: Status) -> Seq<char> {
    match status {
        Status::Uncalibrated => "UNCALIBRATED"@,
        Status::SuccessXy => "SUCCESS-XY"@,
        Status::SuccessZ => "SUCCESS-Z"@,
        Status::RecalibrateXy => "RECALIBRATE-XY"@,
        Status::RecalibrateZ => "RECALIBRATE-Z"@,
        Status::ManualXy => "MANUAL-XY"@,
        Status::ManualZ => "MANUAL-Z"@,
    }
}

/// The status that a tag stands for, if it stands for one.
pub open spec fn status_of(tag: Seq<char>) -> Option<Status> {
    if tag == "UNCALIBRATED"@ {
        Some(Status::Uncalibrated)
    } else if tag == "SUCCESS-XY"@ {
        Some(Status::SuccessXy)
    } else if tag == "SUCCESS-Z"@ {
        Some(Status::SuccessZ)
    } else if tag == "RECALIBRATE-XY"@ {
        Some(Status::RecalibrateXy)
    } else if tag == "RECALIBRATE-Z"@ {
        Some(Status::RecalibrateZ)
    } else if tag == "MANUAL-XY"@ {
        Some(Status::ManualXy)
    } else if tag == "MANUAL-Z"@ {
        Some(Status::ManualZ)
    } else {
        None
    }
}

/// The row of an entry as plain values.
pub open spec fn row_of(entry: ScanEntry) -> PlainRow {
    (
        tag_of(entry.status),
        (entry.xy.0 as int, entry.xy.1 as int),
        match entry.depth {
            Some(side) => Some((side.0 as int, side.1 as int)),
            None => None,
        },
    )
}

/// The rows of a table as plain values.
pub open spec fn rows_of(table: Seq<ScanEntry>) -> Seq<PlainRow> {
    Seq::new(table.len(), |i: int| row_of(table[i]))
}

/// Whether a row is the row of an entry.
pub open spec fn entry_matches(entry: ScanEntry, row: PlainRow) -> bool {
    &&& status_of(row.0) == Some(entry.status)
    &&& row.1 == (entry.xy.0 as int, entry.xy.1 as int)
    &&& row.2 == match entry.depth {
        Some(side) => Some((side.0 as int, side.1 as int)),
        None => None,
    }
}

/// Whether `outcome` is what a run of rows gives: the entries of the rows,
/// or the first row whose tag is no status.
pub open spec fn is_table_of(rows: Seq<PlainRow>, outcome: Result<Vec<ScanEntry>, TableError>)
    -> bool {
    match outcome {
        Ok(table) => {
            &&& table@.len() == rows.len()
            &&& forall|i: int| 0 <= i < rows.len() ==> entry_matches(#[trigger] table@[i], rows[i])
        },
        Err(TableError::UnknownStatus { row }) => {
            &&& row < rows.len()
            &&& status_of(rows[row as int].0) is None
            &&& forall|i: int| 0 <= i < row ==> status_of(#[trigger] rows[i].0) is Some
        },
        Err(TableError::Syntax) => false,
    }
}

/// The seven tags are seven different texts.
pub proof fn lemma_tags_differ(status: Status)
    ensures
        status_of(tag_of(status)) == Some(status),
{
    reveal_strlit("UNCALIBRATED");
    reveal_strlit("SUCCESS-XY");
    reveal_strlit("SUCCESS-Z");
    reveal_strlit("RECALIBRATE-XY");
    reveal_strlit("RECALIBRATE-Z");
    reveal_strlit("MANUAL-XY");
    reveal_strlit("MANUAL-Z");
    assert("UNCALIBRATED"@.len() == 12);
    assert("SUCCESS-XY"@.len() == 10);
    assert("SUCCESS-Z"@.len() == 9);
    assert("RECALIBRATE-XY"@.len() == 14);
    assert("RECALIBRATE-Z"@.len() == 13);
    assert("MANUAL-XY"@.len() == 9);
    assert("MANUAL-Z"@.len() == 8);
    assert("SUCCESS-Z"@[0] == 'S');
    assert("MANUAL-XY"@[0] == 'M');
}

/// The rows of a table read back as the table: every status, front view
/// and side view is the one that was written.
pub proof fn lemma_rows_read_back(table: Seq<ScanEntry>, outcome: Result<Vec<ScanEntry>, TableError>)
    requires
        is_table_of(rows_of(table), outcome),
    ensures
        outcome matches Ok(read) && read@.len() == table.len() && forall|i: int|
            0 <= i < table.len() ==> {
                &&& (#[trigger] read@[i]).status == table[i].status
                &&& read@[i].xy == table[i].xy
                &&& read@[i].depth == table[i].depth
            },
{
    let rows = rows_of(table);
    match outcome {
        Ok(read) => {
            assert forall|i: int| 0 <= i < table.len() implies {
                &&& (#[trigger] read@[i]).status == table[i].status
                &&& read@[i].xy == table[i].xy
                &&& read@[i].depth == table[i].depth
            } by {
                lemma_tags_differ(table[i].status);
                assert(entry_matches(read@[i], rows[i]));
            }
        },
        Err(TableError::UnknownStatus { row }) => {
            lemma_tags_differ(table[row as int].status);
            assert(rows[row as int].0 == tag_of(table[row as int].status));
        },
        Err(TableError::Syntax) => {},
    }
}

/// Writes the tag of a status.
pub fn status_tag(status: Status) -> (tag: String)
    ensures
        tag@ == tag_of(status),
{
    match status {
        Status::Uncalibrated => "UNCALIBRATED".to_owned(),
        Status::SuccessXy => "SUCCESS-XY".to_owned(),
        Status::SuccessZ => "SUCCESS-Z".to_owned(),
        Status::RecalibrateXy => "RECALIBRATE-XY".to_owned(),
        Status::RecalibrateZ => "RECALIBRATE-Z".to_owned(),
        Status::ManualXy => "MANUAL-XY".to_owned(),
        Status::ManualZ => "MANUAL-Z".to_owned(),
    }
}

/// Reads a tag.
pub fn tag_status(tag: &String) -> (status: Option<Status>)
    ensures
        status == status_of(tag@),
{
    if *tag == "UNCALIBRATED".to_owned() {
        Some(Status::Uncalibrated)
    } else if *tag == "SUCCESS-XY".to_owned() {
        Some(Status::SuccessXy)
    } else if *tag == "SUCCESS-Z".to_owned() {
        Some(Status::SuccessZ)
    } else if *tag == "RECALIBRATE-XY".to_owned() {
        Some(Status::RecalibrateXy)
    } else if *tag == "RECALIBRATE-Z".to_owned() {
        Some(Status::RecalibrateZ)
    } else if *tag == "MANUAL-XY".to_owned() {
        Some(Status::ManualXy)
    } else if *tag == "MANUAL-Z".to_owned() {
        Some(Status::ManualZ)
    } else {
        None
    }
}

/// Calls `serde_json::to_string_pretty` on the rows. The library documents
/// that it fails only where a value's own way of writing itself fails or
/// where a map has keys that are no strings. Rows are lists, tuples,
/// strings, integers and options: none of them fails by itself, none is a
/// map, and the text is written into memory. So the call succeeds, and its
/// text is the one that the library writes for these rows.
#[verifier::external_body]
fn rows_to_json(rows: &Vec<Row>) -> (text: Result<String, serde_json::Error>)
    ensures
        text is Ok,
        text matches Ok(written) ==> written@ == pretty_json(plain_rows(rows@)),
{
    serde_json::to_string_pretty(rows)
}

/// Calls `serde_json::from_str` for a run of rows. The rows that come back
/// are those that the library reads from the text, and an error comes back
/// where it reads none.
#[verifier::external_body]
fn rows_from_json(text: &str) -> (rows: Result<Vec<Row>, serde_json::Error>)
    ensures
        match rows {
            Ok(read) => json_rows(text@) == Some(plain_rows(read@)),
            Err(_) => json_rows(text@) is None,
        },
{
    serde_json::from_str(text)
}

/// Turns a table into the rows of the position file.
pub fn table_rows(table: &Vec<ScanEntry>) -> (rows: Vec<Row>)
    ensures
        plain_rows(rows@) == rows_of(table@),
{
    let mut rows: Vec<Row> = Vec::new();
    let mut at: usize = 0;
    while at < table.len()
        invariant
            at <= table@.len(),
            rows@.len() == at,
            forall|i: int| 0 <= i < at ==> plain_row(#[trigger] rows@[i]) == row_of(table@[i]),
        decreases table@.len() - at,
    {
        let entry = table[at];
        rows.push((status_tag(entry.status), entry.xy, entry.depth));
        at = at + 1;
    }
    assert(plain_rows(rows@) =~= rows_of(table@));
    rows
}

/// Turns the rows of a position file into a table.
pub fn table_of_rows(rows: &Vec<Row>) -> (outcome: Result<Vec<ScanEntry>, TableError>)
    ensures
        is_table_of(plain_rows(rows@), outcome),
{
    let mut table: Vec<ScanEntry> = Vec::new();
    let mut at: usize = 0;
    while at < rows.len()
        invariant
            at <= rows@.len(),
            table@.len() == at,
            forall|i: int|
                0 <= i < at ==> entry_matches(#[trigger] table@[i], plain_rows(rows@)[i]),
            forall|i: int| 0 <= i < at ==> status_of(#[trigger] plain_rows(rows@)[i].0) is Some,
        decreases rows@.len() - at,
    {
        let row = &rows[at];
        match tag_status(&row.0) {
            Some(status) => {
                table.push(ScanEntry { status, xy: row.1, depth: row.2 });
            },
            None => {
                return Err(TableError::UnknownStatus { row: at });
            },
        }
        at = at + 1;
    }
    Ok(table)
}

/// Writes a table as the text of a position file: the pretty-printed JSON
/// of its rows. Every table can be written, so there is always a text.
pub fn encode_table(table: &Vec<ScanEntry>) -> (text: Option<String>)
    ensures
        text is Some,
        text matches Some(written) ==> written@ == pretty_json(rows_of(table@)),
{
    let rows = table_rows(table);
    match rows_to_json(&rows) {
        Ok(written) => Some(written),
        Err(_) => None,
    }
}

/// Reads the text of a position file.
///
/// The text must be what the JSON library reads as rows, and each row must
/// hold the tag of a status.
pub fn decode_table(text: &str) -> (outcome: Result<Vec<ScanEntry>, TableError>)
    ensures
        match json_rows(text@) {
            Some(rows) => is_table_of(rows, outcome),
            None => outcome == Err::<Vec<ScanEntry>, TableError>(TableError::Syntax),
        },
{
    match rows_from_json(text) {
        Ok(rows) => table_of_rows(&rows),
        Err(_) => Err(TableError::Syntax),
    }
}

} // verus!
