use vstd::prelude::*;

use crate::keyed::{as_positions, first_per_key_by, first_selected_per_key_by, texts};
use crate::report::header_line;
use crate::text::text_is;

verus! {

/// A line of the NCTS transit report, as read by its column headers, for a
/// transit guarantee (type "TG").
#[derive(Clone, Debug, PartialEq, Eq, PartialOrd, Ord)]
pub struct TGRecords {
    pub klant: String,
    pub type_of_declaration: String,
    pub declaration_number: String,
    pub mrn: String,
    pub declaratie_datum: String,
    pub hts_code: String,
    pub quantity: String,
    pub gross_weight: String,
    pub net_weight: String,
    pub unit_value: String,
    pub total_line_value: String,
    pub exchange_rate: String,
    pub customs_duty: String,
    pub vat_amt: String,
    pub controllled_dual_goods_value: String,
    pub eccn_classification: String,
    pub country_dest: String,
    pub ship_address: String,
    pub ship_to_country: String,
    pub pid_number: String,
    pub t1_cleared: String,
    pub t1_clearance_date: String,
    pub t1_office_clearance: String,
    pub ncts_status: String,
}

/// The NCTS status codes under which a guarantee is loaded or updated.
pub open spec fn is_tg_load_status(s: Seq<char>) -> bool {
    s == "43"@ || s == "8"@ || s == "58"@ || s == "60"@
}

/// Whether the status test of a guarantee line can read it: it reads
/// column 23 and, unless column 23 holds the first code ("43"), column 24.
pub open spec fn tg_status_readable(row: Seq<String>) -> bool {
    row.len() >= 25 || (row.len() == 24 && row[23]@ == "43"@)
}

/// Whether column 23 or 24 of a line holds a status code of the load set.
pub open spec fn tg_status_matches(row: Seq<String>) -> bool {
    is_tg_load_status(row[23]@) || (row.len() > 24 && is_tg_load_status(row[24]@))
}

/// Whether the load pass considers a report line: a load status, and
/// declaration type "TG" in column 1.
pub open spec fn tg_load_row(row: Seq<String>) -> bool {
    tg_status_matches(row) && row[1]@ == "TG"@
}

/// The MRN of a report line: its column 3, the "MRN Number" column of the
/// report layout; empty for a line too short to have one. Lines are told
/// apart by this cell when the guarantee passes keep one line per MRN.
pub open spec fn mrn_cell(row: Seq<String>) -> Seq<char> {
    if row.len() > 3 {
        row[3]@
    } else {
        Seq::empty()
    }
}

/// The MRN cells of the lines of a report.
pub open spec fn mrn_cells(rows: Seq<Vec<String>>) -> Seq<Seq<char>> {
    Seq::new(rows.len(), |i: int| mrn_cell(rows[i]@))
}

/// Whether `j` is the first column of the report's column names headed
/// "MRN Number".
pub open spec fn is_mrn_column(header: Seq<String>, j: int) -> bool {
    &&& 0 <= j < header.len()
    &&& header[j]@ == "MRN Number"@
    &&& forall|k: int| 0 <= k < j ==> header[k]@ != "MRN Number"@
}

/// The MRN of a line as a record read by the column names: the cell under
/// the first "MRN Number" heading; empty where there is no such cell (the
/// line then cannot be read as a record, and reading it fails).
pub open spec fn record_mrn(header: Seq<String>, row: Seq<String>) -> Seq<char> {
    if exists|j: int| is_mrn_column(header, j) && j < row.len() {
        let j = choose|j: int| is_mrn_column(header, j);
        row[j]@
    } else {
        Seq::empty()
    }
}

/// The record MRNs of the lines of a report, whose first line names the
/// columns.
pub open spec fn record_mrns(rows: Seq<Vec<String>>) -> Seq<Seq<char>> {
    Seq::new(rows.len(), |i: int| record_mrn(header_line(rows), rows[i]@))
}

/// The load-pass verdict of every line of a report.
pub open spec fn tg_load_flags(rows: Seq<Vec<String>>) -> Seq<bool> {
    Seq::new(rows.len(), |i: int| tg_load_row(rows[i]@))
}

/// Whether a text is one of the codes under which a guarantee is loaded or
/// updated, written out code by code.
pub open spec fn tg_code_written(t: Seq<char>) -> bool {
    t == "43"@ || t == "8"@ || t == "58"@ || t == "60"@
}

/// Law: a line is in the load set exactly when column 23 or column 24 holds
/// one of the codes 43, 8, 58 and 60; each code counts the same in either
/// column. The load pass considers such a line when column 1 is "TG".
pub proof fn lemma_tg_status_codes(row: Seq<String>)
    requires
        tg_status_readable(row),
    ensures
        tg_status_matches(row) <==> tg_code_written(row[23]@) || (row.len() > 24 && tg_code_written(
            row[24]@,
        )),
        row[23]@ == "43"@ || row[23]@ == "8"@ || row[23]@ == "58"@ || row[23]@ == "60"@
            ==> tg_status_matches(row),
        row.len() > 24 && (row[24]@ == "43"@ || row[24]@ == "8"@ || row[24]@ == "58"@ || row[24]@
            == "60"@) ==> tg_status_matches(row),
        tg_load_row(row) <==> row[1]@ == "TG"@ && tg_status_matches(row),
{
}

/// Law: exchanging columns 23 and 24 of a line does not change whether it is
/// in the load set.
pub proof fn lemma_tg_status_columns_symmetric(row: Seq<String>, swapped: Seq<String>)
    requires
        row.len() >= 25,
        swapped.len() == row.len(),
        swapped[23]@ == row[24]@,
        swapped[24]@ == row[23]@,
    ensures
        tg_status_matches(row) == tg_status_matches(swapped),
{
}

/// Whether the status test can read the line without reading past its end.
pub fn tg_status_row_readable(row: &Vec<String>) -> (res: bool)
    ensures
        res == tg_status_readable(row@),
{
    row.len() >= 25 || (row.len() == 24 && text_is(&row[23], "43"))
}

/// Whether column 23 or 24 holds a status code of the load set, tested in
/// the order of the report rules.
pub fn tg_status_in_load_set(row: &Vec<String>) -> (res: bool)
    requires
        tg_status_readable(row@),
    ensures
        res == tg_status_matches(row@),
{
    text_is(&row[23], "43") || text_is(&row[24], "43") || text_is(&row[23], "8") || text_is(
        &row[24],
        "8",
    ) || text_is(&row[23], "58") || text_is(&row[24], "58") || text_is(&row[23], "60")
        || text_is(&row[24], "60")
}

/// Whether the load pass considers this report line.
pub fn is_tg_load_row(row: &Vec<String>) -> (res: bool)
    requires
        tg_status_readable(row@),
    ensures
        res == tg_load_row(row@),
{
    tg_status_in_load_set(row) && text_is(&row[1], "TG")
}

/// The MRN cell of a report line.
pub fn mrn_cell_text(row: &Vec<String>) -> (res: String)
    ensures
        res@ == mrn_cell(row@),
{
    if row.len() > 3 {
        row[3].clone()
    } else {
        String::new()
    }
}

/// The MRN cells of all lines of a report.
pub fn mrn_cell_texts(rows: &Vec<Vec<String>>) -> (res: Vec<String>)
    ensures
        res.len() == rows.len(),
        texts(res@) == mrn_cells(rows@),
{
    let mut res: Vec<String> = Vec::new();
    let mut i: usize = 0;
    while i < rows.len()
        invariant
            i <= rows.len(),
            res.len() == i,
            forall|k: int| 0 <= k < i ==> #[trigger] res@[k]@ == mrn_cell(rows@[k]@),
        decreases rows.len() - i,
    {
        res.push(mrn_cell_text(&rows[i]));
        i = i + 1;
    }
    assert(texts(res@) =~= mrn_cells(rows@));
    res
}

/// The first column headed "MRN Number", if any.
pub fn mrn_column(header: &Vec<String>) -> (res: Option<usize>)
    ensures
        res matches Some(j) ==> is_mrn_column(header@, j as int),
        res is None ==> forall|k: int| 0 <= k < header.len() ==> header@[k]@ != "MRN Number"@,
{
    let mut j: usize = 0;
    while j < header.len()
        invariant
            j <= header.len(),
            forall|k: int| 0 <= k < j ==> header@[k]@ != "MRN Number"@,
        decreases header.len() - j,
    {
        if text_is(&header[j], "MRN Number") {
            return Some(j);
        }
        j = j + 1;
    }
    None
}

/// The record MRNs of all lines of a report.
pub fn record_mrn_texts(rows: &Vec<Vec<String>>) -> (res: Vec<String>)
    ensures
        res.len() == rows.len(),
        texts(res@) == record_mrns(rows@),
{
    let empty: Vec<String> = Vec::new();
    let column = if rows.len() > 0 {
        mrn_column(&rows[0])
    } else {
        mrn_column(&empty)
    };
    let ghost header = header_line(rows@);
    assert(rows.len() > 0 ==> header == rows@[0]@);
    assert(rows.len() == 0 ==> header =~= empty@);
    let mut res: Vec<String> = Vec::new();
    let mut i: usize = 0;
    while i < rows.len()
        invariant
            i <= rows.len(),
            res.len() == i,
            header == header_line(rows@),
            column matches Some(j) ==> is_mrn_column(header, j as int),
            column is None ==> forall|k: int| 0 <= k < header.len() ==> header[k]@ != "MRN Number"@,
            forall|k: int| 0 <= k < i ==> #[trigger] res@[k]@ == record_mrn(header, rows@[k]@),
        decreases rows.len() - i,
    {
        let row = &rows[i];
        let cell = match column {
            Some(j) => {
                if j < row.len() {
                    proof {
                        let c = choose|c: int| is_mrn_column(header, c);
                        assert(c == j) by {
                            if c < j {
                                assert(header[c]@ != "MRN Number"@);
                            }
                            if j < c {
                                assert(header[j as int]@ != "MRN Number"@);
                            }
                        }
                    }
                    row[j].clone()
                } else {
                    proof {
                        if exists|c: int| is_mrn_column(header, c) && c < row@.len() {
                            let c = choose|c: int| is_mrn_column(header, c) && c < row@.len();
                            assert(c == j) by {
                                if c < j {
                                    assert(header[c]@ != "MRN Number"@);
                                }
                                if j < c {
                                    assert(header[j as int]@ != "MRN Number"@);
                                }
                            }
                        }
                    }
                    String::new()
                }
            },
            None => String::new(),
        };
        res.push(cell);
        i = i + 1;
    }
    assert(texts(res@) =~= record_mrns(rows@));
    res
}

/// The positions of the report lines that the load pass takes: each line it
/// considers, unless a line taken before it has, as a record, the MRN that
/// this line has in column 3 (the load pass compares a line's column 3 with
/// the MRNs of the records it has taken).
pub fn select_tg_load_rows(rows: &Vec<Vec<String>>) -> (res: Vec<usize>)
    requires
        forall|i: int| 0 <= i < rows.len() ==> tg_status_readable(#[trigger] rows@[i]@),
    ensures
        as_positions(res@) == first_per_key_by(
            record_mrns(rows@),
            mrn_cells(rows@),
            tg_load_flags(rows@),
            rows.len() as int,
        ),
{
    let stored = record_mrn_texts(rows);
    let keys = mrn_cell_texts(rows);
    let mut flags: Vec<bool> = Vec::new();
    let mut i: usize = 0;
    while i < rows.len()
        invariant
            i <= rows.len(),
            forall|k: int| 0 <= k < rows.len() ==> tg_status_readable(#[trigger] rows@[k]@),
            flags.len() == i,
            forall|k: int| 0 <= k < i ==> #[trigger] flags@[k] == tg_load_row(rows@[k]@),
        decreases rows.len() - i,
    {
        flags.push(is_tg_load_row(&rows[i]));
        i = i + 1;
    }
    assert(flags@ =~= tg_load_flags(rows@));
    first_selected_per_key_by(&stored, &keys, &flags)
}

} // verus!
