use vstd::prelude::*;

use crate::dates::{chrono_parsed_date, declaration_date_iso, iso_date, report_date_format};
use crate::keyed::{
    as_positions, first_per_key_by, first_selected_per_key_by, lemma_first_per_key_exclusive,
    lemma_first_per_key_shape,
};
use crate::tables::{
    find_klant, find_ncts_status, has_klant, has_status, is_first_klant, is_first_status, Dossier,
    Klant, LoadError, NctsStatus, RapportChange,
};
use crate::text::text_is;
use crate::tg_monitoring::{
    mrn_cell_texts, mrn_cells, record_mrn_texts, record_mrns, tg_status_in_load_set, tg_status_matches, tg_status_readable,
    TGRecords,
};

verus! {

/// A row of the `tg_rapport` table: the follow-up of one transit guarantee.
#[derive(Clone, Debug, PartialEq, Eq)]
pub struct TgRapport {
    pub id: Option<u64>,
    pub fk_dossier_id: u64,
    pub fk_ncts_status_id: Option<i64>,
    pub notitie: Option<String>,
    pub referentie: Option<String>,
}

/// A row of the `tg_rapport_view` view: a transit guarantee joined with its
/// dossier, customer and status.
#[derive(Clone, Debug, PartialEq, Eq)]
pub struct TgRapportView {
    pub id: i64,
    pub declaratie_datum: Option<String>,
    pub mrn: String,
    pub referentie: Option<String>,
    pub status: String,
    pub notitie: Option<String>,
    pub klant_id: i16,
    pub dossier_id: i64,
    pub fk_ncts_status_id: i64,
}

/// The rules that keep the transit guarantee tables in step with the report.
pub struct TgRapportConnection {}

/// Whether a guarantee line names, in column 3, an MRN of the guarantee view.
pub open spec fn tg_mrn_known(row: Seq<String>, views: Seq<TgRapportView>) -> bool {
    &&& row.len() > 3
    &&& exists|j: int| 0 <= j < views.len() && views[j].mrn@ == row[3]@
    &&& row[1]@ == "TG"@
}

/// Whether a guarantee line names, in column 23, a status of the status table.
pub open spec fn tg_status_known(row: Seq<String>, statuses: Seq<NctsStatus>) -> bool {
    &&& row.len() > 23
    &&& has_status(statuses, row[23]@)
    &&& row[1]@ == "TG"@
}

/// Whether the check pass can test a line without reading past its end: the
/// MRN column is read when the view has rows, the status column when the
/// status table has rows, and the status columns when both are known.
pub open spec fn tg_check_readable(
    row: Seq<String>,
    views: Seq<TgRapportView>,
    statuses: Seq<NctsStatus>,
) -> bool {
    &&& (views.len() == 0 || row.len() > 3)
    &&& (statuses.len() == 0 || row.len() > 23)
    &&& (tg_mrn_known(row, views) && tg_status_known(row, statuses)) ==> tg_status_readable(row)
}

/// The lines whose dossier the check pass removes: known MRN, unknown status.
pub open spec fn tg_removal_flags(
    rows: Seq<Vec<String>>,
    views: Seq<TgRapportView>,
    statuses: Seq<NctsStatus>,
) -> Seq<bool> {
    Seq::new(
        rows.len(),
        |i: int| tg_mrn_known(rows[i]@, views) && !tg_status_known(rows[i]@, statuses),
    )
}

/// The lines whose dossier the check pass updates: known MRN, known status,
/// and a load status in column 23 or 24.
pub open spec fn tg_update_flags(
    rows: Seq<Vec<String>>,
    views: Seq<TgRapportView>,
    statuses: Seq<NctsStatus>,
) -> Seq<bool> {
    Seq::new(
        rows.len(),
        |i: int|
            tg_mrn_known(rows[i]@, views) && tg_status_known(rows[i]@, statuses)
                && tg_status_matches(rows[i]@),
    )
}

/// The lines that the check pass removes (`removal`) or updates, with the
/// record MRN as stored key and column 3 as probe key.
pub open spec fn tg_check_taken(
    rows: Seq<Vec<String>>,
    flags: Seq<bool>,
) -> Seq<int> {
    first_per_key_by(record_mrns(rows), mrn_cells(rows), flags, rows.len() as int)
}

/// Law: the check pass never both removes and updates the dossier of the
/// same guarantee line, and it touches only lines whose MRN the view knows.
pub proof fn lemma_tg_check_choices(
    rows: Seq<Vec<String>>,
    views: Seq<TgRapportView>,
    statuses: Seq<NctsStatus>,
)
    ensures
        forall|j1: int, j2: int|
            0 <= j1 < tg_check_taken(rows, tg_removal_flags(rows, views, statuses)).len() && 0 <= j2
                < tg_check_taken(rows, tg_update_flags(rows, views, statuses)).len()
                ==> #[trigger] tg_check_taken(rows, tg_removal_flags(rows, views, statuses))[j1]
                != #[trigger] tg_check_taken(rows, tg_update_flags(rows, views, statuses))[j2],
        forall|j: int|
            0 <= j < tg_check_taken(rows, tg_removal_flags(rows, views, statuses)).len()
                ==> tg_mrn_known(
                rows[#[trigger] tg_check_taken(rows, tg_removal_flags(rows, views, statuses))[j]]@,
                views,
            ),
        forall|j: int|
            0 <= j < tg_check_taken(rows, tg_update_flags(rows, views, statuses)).len()
                ==> tg_mrn_known(
                rows[#[trigger] tg_check_taken(rows, tg_update_flags(rows, views, statuses))[j]]@,
                views,
            ),
{
    let n = rows.len() as int;
    let removal = tg_removal_flags(rows, views, statuses);
    let update = tg_update_flags(rows, views, statuses);
    lemma_first_per_key_exclusive(record_mrns(rows), mrn_cells(rows), removal, update, n);
    lemma_first_per_key_shape(record_mrns(rows), mrn_cells(rows), removal, n);
    lemma_first_per_key_shape(record_mrns(rows), mrn_cells(rows), update, n);
}

/// The change asked for an MRN whose report line has a known status, given
/// the view rows of that MRN and the status rows of that status.
pub open spec fn tg_update_change(views: Seq<TgRapportView>, statuses: Seq<NctsStatus>) -> Result<
    RapportChange,
    LoadError,
> {
    if views.len() == 0 {
        Err(LoadError::NoViewRow)
    } else if statuses.len() == 0 {
        Err(LoadError::NoStatusRow)
    } else if views.len() > 1 {
        Ok(RapportChange::RemoveDossier { dossier_id: views[1].dossier_id })
    } else if views.len() == 1 {
        match statuses[0].id {
            None => Err(LoadError::StatusWithoutId),
            Some(s) => if views[0].fk_ncts_status_id != s {
                Ok(RapportChange::SetStatus { dossier_id: views[0].dossier_id, ncts_status_id: s })
            } else {
                Ok(RapportChange::Unchanged)
            },
        }
    } else {
        Ok(RapportChange::Unchanged)
    }
}

/// Law: once the change asked for a single dossier is made (its status set
/// to the status asked for), the same update asks for nothing more.
pub proof fn lemma_tg_update_settles(v: TgRapportView, updated: TgRapportView, statuses: Seq<NctsStatus>)
    requires
        statuses.len() > 0,
        statuses[0].id is Some,
        updated.dossier_id == v.dossier_id,
        updated.fk_ncts_status_id == statuses[0].id->0,
    ensures
        tg_update_change(seq![v], statuses) == Ok::<RapportChange, LoadError>(
            RapportChange::SetStatus { dossier_id: v.dossier_id, ncts_status_id: statuses[0].id->0 },
        ) || tg_update_change(seq![v], statuses) == Ok::<RapportChange, LoadError>(
            RapportChange::Unchanged,
        ),
        tg_update_change(seq![updated], statuses) == Ok::<RapportChange, LoadError>(
            RapportChange::Unchanged,
        ),
{
}

/// Law: for a single dossier of the MRN and a status row with an id, the
/// dossier gets the status of the report line exactly when its current
/// status differs from it (in either direction), and is left unchanged
/// exactly when they are equal.
pub proof fn lemma_tg_update_single_dossier(v: TgRapportView, statuses: Seq<NctsStatus>)
    requires
        statuses.len() > 0,
        statuses[0].id is Some,
    ensures
        v.fk_ncts_status_id != statuses[0].id->0 ==> tg_update_change(seq![v], statuses) == Ok::<
            RapportChange,
            LoadError,
        >(RapportChange::SetStatus { dossier_id: v.dossier_id, ncts_status_id: statuses[0].id->0 }),
        v.fk_ncts_status_id == statuses[0].id->0 ==> tg_update_change(seq![v], statuses) == Ok::<
            RapportChange,
            LoadError,
        >(RapportChange::Unchanged),
        v.fk_ncts_status_id < statuses[0].id->0 || v.fk_ncts_status_id > statuses[0].id->0 <==> tg_update_change(
            seq![v],
            statuses,
        ) is Ok && tg_update_change(seq![v], statuses) != Ok::<RapportChange, LoadError>(
            RapportChange::Unchanged,
        ),
{
}

impl TgRapportConnection {
    /// Whether the check pass can test this line (see `tg_check_readable`).
    pub fn check_row_readable(
        row: &Vec<String>,
        views: &Vec<TgRapportView>,
        statuses: &Vec<NctsStatus>,
    ) -> (res: bool)
        ensures
            res == tg_check_readable(row@, views@, statuses@),
    {
        if !(views.len() == 0 || row.len() > 3) || !(statuses.len() == 0 || row.len() > 23) {
            return false;
        }
        if Self::mrn_known(row, views) && Self::status_known(row, statuses) {
            row.len() >= 25 || (row.len() == 24 && text_is(&row[23], "43"))
        } else {
            true
        }
    }

    /// Whether a guarantee line names an MRN of the guarantee view.
    pub fn mrn_known(row: &Vec<String>, views: &Vec<TgRapportView>) -> (res: bool)
        requires
            views.len() == 0 || row.len() > 3,
        ensures
            res == tg_mrn_known(row@, views@),
    {
        let mut j: usize = 0;
        while j < views.len()
            invariant
                views.len() == 0 || row.len() > 3,
                j <= views.len(),
                forall|k: int|
                    0 <= k < j ==> !(views@[k].mrn@ == row@[3]@ && row@[1]@ == "TG"@),
            decreases views.len() - j,
        {
            if views[j].mrn == row[3] && text_is(&row[1], "TG") {
                return true;
            }
            j = j + 1;
        }
        proof {
            if tg_mrn_known(row@, views@) {
                let k = choose|k: int| 0 <= k < views@.len() && views@[k].mrn@ == row@[3]@;
                assert(!(views@[k].mrn@ == row@[3]@ && row@[1]@ == "TG"@));
            }
        }
        false
    }

    /// Whether a guarantee line names a status of the status table.
    pub fn status_known(row: &Vec<String>, statuses: &Vec<NctsStatus>) -> (res: bool)
        requires
            statuses.len() == 0 || row.len() > 23,
        ensures
            res == tg_status_known(row@, statuses@),
    {
        let mut j: usize = 0;
        while j < statuses.len()
            invariant
                statuses.len() == 0 || row.len() > 23,
                j <= statuses.len(),
                forall|k: int|
                    0 <= k < j ==> !(statuses@[k].status@ == row@[23]@ && row@[1]@ == "TG"@),
            decreases statuses.len() - j,
        {
            if statuses[j].status == row[23] && text_is(&row[1], "TG") {
                return true;
            }
            j = j + 1;
        }
        proof {
            if tg_status_known(row@, statuses@) {
                let k = choose|k: int|
                    0 <= k < statuses@.len() && statuses@[k].status@ == row@[23]@;
                assert(!(statuses@[k].status@ == row@[23]@ && row@[1]@ == "TG"@));
            }
        }
        false
    }

    /// Splits the lines of a report against the tables: the lines whose MRN
    /// (column 3) the view knows while the status table does not know their
    /// status (their dossier is removed), and the lines whose MRN the view
    /// knows with a known status and a load status in column 23 or 24 (their
    /// dossier is updated); in each list a line is left out when a line taken
    /// before it has, as a record, the MRN of its column 3.
    pub fn classify_report_rows(
        rows: &Vec<Vec<String>>,
        views: &Vec<TgRapportView>,
        statuses: &Vec<NctsStatus>,
    ) -> (res: (Vec<usize>, Vec<usize>))
        requires
            forall|i: int|
                0 <= i < rows.len() ==> tg_check_readable(#[trigger] rows@[i]@, views@, statuses@),
        ensures
            as_positions(res.0@) == tg_check_taken(rows@, tg_removal_flags(rows@, views@, statuses@)),
            as_positions(res.1@) == tg_check_taken(rows@, tg_update_flags(rows@, views@, statuses@)),
    {
        let stored = record_mrn_texts(rows);
        let keys = mrn_cell_texts(rows);
        let mut removal: Vec<bool> = Vec::new();
        let mut update: Vec<bool> = Vec::new();
        let mut i: usize = 0;
        while i < rows.len()
            invariant
                i <= rows.len(),
                forall|k: int|
                    0 <= k < rows.len() ==> tg_check_readable(
                        #[trigger] rows@[k]@,
                        views@,
                        statuses@,
                    ),
                removal.len() == i,
                update.len() == i,
                forall|k: int|
                    0 <= k < i ==> #[trigger] removal@[k] == tg_removal_flags(
                        rows@,
                        views@,
                        statuses@,
                    )[k],
                forall|k: int|
                    0 <= k < i ==> #[trigger] update@[k] == tg_update_flags(
                        rows@,
                        views@,
                        statuses@,
                    )[k],
            decreases rows.len() - i,
        {
            let row = &rows[i];
            assert(tg_check_readable(row@, views@, statuses@));
            let known = Self::mrn_known(row, views);
            let status_known = Self::status_known(row, statuses);
            if known && !status_known {
                removal.push(true);
                update.push(false);
            } else if known && status_known {
                removal.push(false);
                update.push(tg_status_in_load_set(row));
            } else {
                removal.push(false);
                update.push(false);
            }
            i = i + 1;
        }
        assert(removal@ =~= tg_removal_flags(rows@, views@, statuses@));
        assert(update@ =~= tg_update_flags(rows@, views@, statuses@));
        (
            first_selected_per_key_by(&stored, &keys, &removal),
            first_selected_per_key_by(&stored, &keys, &update),
        )
    }

    /// The dossier row for a guarantee record taken by the load pass; fails,
    /// in this order, when the record's customer is not in the customer
    /// table, when that customer row has no id, or when the declaration date
    /// is not a day/month/year date.
    pub fn prepare_dossier(item: &TGRecords, klants: &Vec<Klant>) -> (res: Result<
        Dossier,
        LoadError,
    >)
        ensures
            !has_klant(klants@, item.klant@) <==> res == Err::<Dossier, LoadError>(
                LoadError::UnknownKlant,
            ),
            res == Err::<Dossier, LoadError>(LoadError::KlantWithoutId) <==> (has_klant(
                klants@,
                item.klant@,
            ) && forall|k: int| is_first_klant(klants@, item.klant@, k) ==> klants@[k].id is None),
            res == Err::<Dossier, LoadError>(LoadError::InvalidDate) <==> (has_klant(
                klants@,
                item.klant@,
            ) && (forall|k: int| is_first_klant(klants@, item.klant@, k) ==> klants@[k].id is Some)
                && chrono_parsed_date(item.declaratie_datum@, report_date_format()) is None),
            (has_klant(klants@, item.klant@) && (forall|k: int|
                is_first_klant(klants@, item.klant@, k) ==> klants@[k].id is Some)
                && chrono_parsed_date(item.declaratie_datum@, report_date_format()) is Some) ==> res is Ok,
            res matches Err(e) ==> e == LoadError::UnknownKlant || e == LoadError::KlantWithoutId
                || e == LoadError::InvalidDate,
            res matches Ok(d) ==> exists|k: int|
                #![trigger is_first_klant(klants@, item.klant@, k)]
                is_first_klant(klants@, item.klant@, k) && klants@[k].id is Some && d.id is None
                    && d.mrn@ == item.mrn@ && d.fk_klant_id == klants@[k].id->0
                    && d.fk_landscode_id is None && d.manually_created == 0
                    && match chrono_parsed_date(item.declaratie_datum@, report_date_format()) {
                    Some((y, m, dd)) => d.declaratie_datum@ == iso_date(
                        y as int,
                        m as nat,
                        dd as nat,
                    ),
                    None => false,
                },
    {
        let k = match find_klant(klants, &item.klant) {
            Some(k) => k,
            None => {
                return Err(LoadError::UnknownKlant);
            },
        };
        let klant_id = match klants[k].id {
            Some(id) => id,
            None => {
                return Err(LoadError::KlantWithoutId);
            },
        };
        let date = match declaration_date_iso(item.declaratie_datum.as_str()) {
            Some(date) => date,
            None => {
                return Err(LoadError::InvalidDate);
            },
        };
        Ok(
            Dossier {
                id: None,
                mrn: item.mrn.clone(),
                fk_klant_id: klant_id,
                fk_landscode_id: None,
                declaratie_datum: date,
                manually_created: 0,
            },
        )
    }

    /// The report row that follows a new dossier: the dossier's id and the id
    /// of the first status row of the record's status; fails when no such
    /// status row exists.
    pub fn rapport_for(dossier_id: u64, item: &TGRecords, statuses: &Vec<NctsStatus>) -> (res:
        Result<TgRapport, LoadError>)
        ensures
            !has_status(statuses@, item.ncts_status@) <==> res == Err::<TgRapport, LoadError>(
                LoadError::UnknownStatus,
            ),
            has_status(statuses@, item.ncts_status@) ==> res is Ok,
            res matches Err(e) ==> e == LoadError::UnknownStatus,
            res matches Ok(r) ==> exists|s: int|
                #![trigger is_first_status(statuses@, item.ncts_status@, s)]
                is_first_status(statuses@, item.ncts_status@, s) && r.id is None && r.fk_dossier_id
                    == dossier_id && r.fk_ncts_status_id == statuses@[s].id && r.notitie is None
                    && r.referentie is None,
    {
        match find_ncts_status(statuses, &item.ncts_status) {
            None => Err(LoadError::UnknownStatus),
            Some(s) => Ok(
                TgRapport {
                    id: None,
                    fk_dossier_id: dossier_id,
                    fk_ncts_status_id: statuses[s].id,
                    notitie: None,
                    referentie: None,
                },
            ),
        }
    }

    /// Whether a dossier picked for removal is removed: only when report rows
    /// of it were found; then its report rows and the dossier itself go.
    pub fn removal_confirmed(dossier_id: i64, rapports: &Vec<TgRapport>) -> (res: Option<i64>)
        ensures
            rapports.len() > 0 <==> res is Some,
            res matches Some(id) ==> id == dossier_id,
    {
        if rapports.len() > 0 {
            Some(dossier_id)
        } else {
            None
        }
    }

    /// The dossier of the first view row of an MRN, whose rows are removed.
    pub fn removal_dossier(views: &Vec<TgRapportView>) -> (res: Option<i64>)
        ensures
            views.len() == 0 <==> res is None,
            res matches Some(id) ==> id == views@[0].dossier_id,
    {
        if views.len() == 0 {
            None
        } else {
            Some(views[0].dossier_id)
        }
    }

    /// The change for an MRN whose report line has a known status, given the
    /// view rows of that MRN and the status rows of that status: a second
    /// dossier of the MRN is removed; a single dossier whose status differs
    /// gets the new status; otherwise nothing changes. Fails when no view
    /// row was found, when no status row was found, or when the status id is needed and missing.
    pub fn plan_update(views: &Vec<TgRapportView>, statuses: &Vec<NctsStatus>) -> (res: Result<
        RapportChange,
        LoadError,
    >)
        ensures
            res == tg_update_change(views@, statuses@),
    {
        if views.len() == 0 {
            return Err(LoadError::NoViewRow);
        }
        if statuses.len() == 0 {
            return Err(LoadError::NoStatusRow);
        }
        let status_id = statuses[0].id;
        if views.len() > 1 {
            Ok(RapportChange::RemoveDossier { dossier_id: views[1].dossier_id })
        } else if views.len() > 0 {
            match status_id {
                None => Err(LoadError::StatusWithoutId),
                Some(s) => {
                    if views[0].fk_ncts_status_id != s {
                        Ok(RapportChange::SetStatus { dossier_id: views[0].dossier_id, ncts_status_id: s })
                    } else {
                        Ok(RapportChange::Unchanged)
                    }
                },
            }
        } else {
            Ok(RapportChange::Unchanged)
        }
    }
}

} // verus!
