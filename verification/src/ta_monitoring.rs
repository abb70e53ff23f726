use vstd::prelude::*;

use crate::keyed::{as_positions, group_by_key, key_groups, positions_where, texts};
use crate::text::text_is;

verus! {

/// A line of the NCTS transit report, as read by its column headers, for a
/// transit declaration (type "TA").
#[derive(Clone, Debug, PartialEq, Eq)]
pub struct TARecords {
    pub klant: String,
    pub type_of_declaration: String,
    pub declaration_number: String,
    pub mrn: String,
    pub declaratie_datum: String,
    pub hts_code: String,
    pub quantity: String,
    pub gross_weight: String,
    pub net_weight: String,
    pub unit_value: String,
    pub total_line_value: String,
    pub exchange_rate: String,
    pub customs_duty: String,
    pub vat_amt: String,
    pub controllled_dual_goods_value: String,
    pub eccn_classification: String,
    pub land: String,
    pub ship_address: String,
    pub ship_to_country: String,
    pub pid_number: String,
    pub t1_cleared: String,
    pub t1_clearance_date: String,
    pub t1_office_clearance: String,
    pub ncts_status: String,
}

/// The NCTS status codes under which a transit declaration is loaded.
pub open spec fn is_ta_load_status(s: Seq<char>) -> bool {
    s == "29"@ || s == "140"@ || s == "141"@ || s == "6"@
}

/// Whether the status test of the load pass can read the line: it reads
/// column 23 and, unless column 23 holds the first code ("29"), column 24.
pub open spec fn ta_status_readable(row: Seq<String>) -> bool {
    row.len() >= 25 || (row.len() == 24 && row[23]@ == "29"@)
}

/// Whether the load pass takes a report line: a status code of the load
/// set in column 23 or 24, and declaration type "TA" in column 1.
pub open spec fn ta_load_row(row: Seq<String>) -> bool {
    &&& (is_ta_load_status(row[23]@) || (row.len() > 24 && is_ta_load_status(row[24]@)))
    &&& row[1]@ == "TA"@
}

/// The load-pass verdict of every line of a report.
pub open spec fn ta_load_flags(rows: Seq<Vec<String>>) -> Seq<bool> {
    Seq::new(rows.len(), |i: int| ta_load_row(rows[i]@))
}

/// The MRN texts of a sequence of records.
pub open spec fn ta_mrns(records: Seq<TARecords>) -> Seq<Seq<char>> {
    records.map_values(|r: TARecords| r.mrn@)
}

/// Whether a text is one of the codes under which a transit declaration is
/// loaded, written out code by code.
pub open spec fn ta_code_written(t: Seq<char>) -> bool {
    t == "29"@ || t == "140"@ || t == "141"@ || t == "6"@
}

/// Law: the load pass takes a line exactly when column 1 is "TA" and
/// column 23 or column 24 holds one of the codes 29, 140, 141 and 6; each
/// code counts the same in either column.
pub proof fn lemma_ta_load_row_codes(row: Seq<String>)
    requires
        ta_status_readable(row),
    ensures
        ta_load_row(row) <==> row[1]@ == "TA"@ && (ta_code_written(row[23]@) || (row.len() > 24
            && ta_code_written(row[24]@))),
        row[1]@ == "TA"@ && (row[23]@ == "29"@ || row[23]@ == "140"@ || row[23]@ == "141"@
            || row[23]@ == "6"@) ==> ta_load_row(row),
        row[1]@ == "TA"@ && row.len() > 24 && (row[24]@ == "29"@ || row[24]@ == "140"@ || row[24]@
            == "141"@ || row[24]@ == "6"@) ==> ta_load_row(row),
        row[1]@ != "TA"@ ==> !ta_load_row(row),
{
}

/// Law: exchanging columns 23 and 24 of a line does not change whether the
/// load pass takes it.
pub proof fn lemma_ta_load_row_columns_symmetric(row: Seq<String>, swapped: Seq<String>)
    requires
        row.len() >= 25,
        swapped.len() == row.len(),
        swapped[23]@ == row[24]@,
        swapped[24]@ == row[23]@,
        swapped[1]@ == row[1]@,
    ensures
        ta_load_row(row) == ta_load_row(swapped),
{
}

/// Whether the load pass can test the line without reading past its end.
pub fn ta_status_row_readable(row: &Vec<String>) -> (res: bool)
    ensures
        res == ta_status_readable(row@),
{
    row.len() >= 25 || (row.len() == 24 && text_is(&row[23], "29"))
}

/// Whether the load pass takes this report line.
pub fn is_ta_load_row(row: &Vec<String>) -> (res: bool)
    requires
        ta_status_readable(row@),
    ensures
        res == ta_load_row(row@),
{
    (text_is(&row[23], "29") || text_is(&row[24], "29") || text_is(&row[23], "140") || text_is(
        &row[24],
        "140",
    ) || text_is(&row[23], "141") || text_is(&row[24], "141") || text_is(&row[23], "6")
        || text_is(&row[24], "6")) && text_is(&row[1], "TA")
}

/// The positions of the report lines that the load pass takes, in order.
pub fn select_ta_load_rows(rows: &Vec<Vec<String>>) -> (res: Vec<usize>)
    requires
        forall|i: int| 0 <= i < rows.len() ==> ta_status_readable(#[trigger] rows@[i]@),
    ensures
        as_positions(res@) == positions_where(ta_load_flags(rows@), rows.len() as int),
{
    let mut res: Vec<usize> = Vec::new();
    let mut i: usize = 0;
    while i < rows.len()
        invariant
            i <= rows.len(),
            forall|k: int| 0 <= k < rows.len() ==> ta_status_readable(#[trigger] rows@[k]@),
            as_positions(res@) == positions_where(ta_load_flags(rows@), i as int),
        decreases rows.len() - i,
    {
        if is_ta_load_row(&rows[i]) {
            res.push(i);
        }
        assert(as_positions(res@) == positions_where(ta_load_flags(rows@), i + 1));
        i = i + 1;
    }
    res
}

/// Groups the records taken by the load pass by MRN: one group per MRN, in
/// the order in which the MRNs first occur, each holding the positions of all
/// records of that MRN in order. The first record of a group is the one that
/// is loaded; the amounts of the others are added to it.
pub fn group_by_mrn(records: &Vec<TARecords>) -> (groups: Vec<Vec<usize>>)
    ensures
        groups@.len() == key_groups(ta_mrns(records@)).len(),
        forall|g: int|
            0 <= g < groups@.len() ==> as_positions(#[trigger] groups@[g]@) == key_groups(
                ta_mrns(records@),
            )[g],
{
    let mut keys: Vec<String> = Vec::new();
    let mut i: usize = 0;
    while i < records.len()
        invariant
            i <= records.len(),
            keys.len() == i,
            texts(keys@) == ta_mrns(records@.subrange(0, i as int)),
        decreases records.len() - i,
    {
        let ghost before = keys@;
        let mrn = records[i].mrn.clone();
        keys.push(mrn);
        assert(keys@ == before.push(mrn));
        assert(texts(keys@).len() == i + 1);
        assert forall|k: int| 0 <= k < i + 1 implies #[trigger] texts(keys@)[k] == ta_mrns(
            records@.subrange(0, i + 1),
        )[k] by {
            if k < i {
                assert(texts(keys@)[k] == texts(before)[k]);
            }
        }
        assert(texts(keys@) =~= ta_mrns(records@.subrange(0, i + 1)));
        i = i + 1;
    }
    assert(records@.subrange(0, records.len() as int) == records@);
    group_by_key(&keys)
}

} // verus!
