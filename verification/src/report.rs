use vstd::prelude::*;

verus! {

/// The lines of a CSV text as the `csv` crate reads them with the given
/// delimiter, every line a record (no header line is set apart) and lines
/// of any length allowed: for each line the text of each cell; `None` where
/// the crate reports an error (such as text that is not UTF-8).
pub uninterp spec fn csv_records(bytes: Seq<u8>, delimiter: u8) -> Option<Seq<Seq<Seq<char>>>>;

/// The cell texts of a table of strings.
pub open spec fn rows_view(v: Seq<Vec<String>>) -> Seq<Seq<Seq<char>>> {
    v.map_values(|r: Vec<String>| r@.map_values(|c: String| c@))
}

/// Reads `bytes` with `csv::ReaderBuilder` (`delimiter`, `has_headers(false)`,
/// `flexible(true)`, `from_reader`) and collects the cells of every record of
/// `Reader::records`. Trusted: the result is the one that the csv crate
/// computes from the bytes and the delimiter (named `csv_records`).
#[verifier::external_body]
fn parse_csv_records(bytes: &[u8], delimiter: u8) -> (res: Option<Vec<Vec<String>>>)
    ensures
        res is None <==> csv_records(bytes@, delimiter) is None,
        res matches Some(v) ==> rows_view(v@) == csv_records(bytes@, delimiter)->0,
{
    let mut reader = csv::ReaderBuilder::new().delimiter(delimiter).has_headers(false).flexible(true).from_reader(bytes);
    let mut rows = Vec::new();
    for record in reader.records() {
        let record = match record {
            Ok(record) => record,
            Err(_) => return None,
        };
        let mut cells = Vec::new();
        for cell in record.iter() {
            cells.push(cell.to_string());
        }
        rows.push(cells);
    }
    Some(rows)
}

/// The cell separator of the NCTS report.
pub open spec fn report_delimiter() -> u8 {
    59u8
}

/// Cuts the bytes of an NCTS report (`;`-separated) into lines and cells;
/// the first line, the column names, is kept as a line like the others.
/// `None` where the bytes are not a CSV text.
pub fn report_rows(bytes: &[u8]) -> (res: Option<Vec<Vec<String>>>)
    ensures
        res is None <==> csv_records(bytes@, report_delimiter()) is None,
        res matches Some(v) ==> rows_view(v@) == csv_records(bytes@, report_delimiter())->0,
{
    parse_csv_records(bytes, 59u8)
}

/// The column names of a report: its first line, or none for an empty report.
pub open spec fn header_line(rows: Seq<Vec<String>>) -> Seq<String> {
    if rows.len() > 0 {
        rows[0]@
    } else {
        Seq::empty()
    }
}

} // verus!
