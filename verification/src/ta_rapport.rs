use vstd::prelude::*;

use crate::dates::{chrono_parsed_date, declaration_date_iso, iso_date, report_date_format};
use crate::keyed::{
    as_positions, first_per_key, first_selected_per_key, lemma_first_per_key_exclusive,
    lemma_first_per_key_shape, positions_where, texts,
};
use crate::ta_monitoring::{ta_mrns, TARecords};
use crate::tables::{
    find_klant, find_land, find_ncts_status, has_klant, has_land, has_status, is_first_klant,
    is_first_land, is_first_status, Dossier, Klant, Land, LoadError, NctsStatus, RapportChange,
};
use crate::text::{cut_to_two_decimals, text_is, two_decimal_text};

verus! {

/// A row of the `ta_rapport` table: the follow-up of one transit declaration.
#[derive(Clone, Debug, PartialEq, Eq)]
pub struct TaRapport {
    pub id: Option<i64>,
    pub fk_dossier_id: i64,
    pub opmerking: Option<String>,
    pub fk_ncts_status_id: i64,
    pub aanvullend: Option<String>,
    pub risico: Option<String>,
    pub opt_in_out: Option<String>,
    pub vervoerder: Option<String>,
}

/// A row of the `ta_rapport_view` view: a transit declaration joined with its
/// dossier, customer, country and status.
#[derive(Clone, Debug, PartialEq, Eq)]
pub struct TaRapportView {
    pub id: i64,
    pub declaratie_datum: Option<String>,
    pub mrn: String,
    pub referentie: Option<String>,
    pub land_code_twee: String,
    pub risico: Option<String>,
    pub vervoerder: Option<String>,
    pub opt_in_out: Option<String>,
    pub status: String,
    pub documents: i16,
    pub opmerking: Option<String>,
    pub aanvullend: Option<String>,
    pub klant_id: i16,
    pub dossier_id: i64,
    pub fk_ncts_status_id: i64,
}

/// The rules that keep the transit declaration tables in step with the report.
pub struct TaRapportConnection {}

/// What a dossier insertion for a transit record needs: the dossier row, and
/// the id of the record's status row for the report row that follows it.
#[derive(Clone, Debug, PartialEq, Eq)]
pub struct TaDossierPlan {
    pub dossier: Dossier,
    pub ncts_status_id: Option<i64>,
}

/// Whether the MRN of a record is in the declaration view.
pub open spec fn ta_mrn_known(r: TARecords, views: Seq<TaRapportView>) -> bool {
    exists|j: int| 0 <= j < views.len() && views[j].mrn@ == r.mrn@
}

/// The records that the check pass removes: known MRN, unknown status.
pub open spec fn ta_removal_flags(
    records: Seq<TARecords>,
    views: Seq<TaRapportView>,
    statuses: Seq<NctsStatus>,
) -> Seq<bool> {
    Seq::new(
        records.len(),
        |i: int| ta_mrn_known(records[i], views) && !has_status(statuses, records[i].ncts_status@),
    )
}

/// The records that the check pass updates: known MRN, known status.
pub open spec fn ta_update_flags(
    records: Seq<TARecords>,
    views: Seq<TaRapportView>,
    statuses: Seq<NctsStatus>,
) -> Seq<bool> {
    Seq::new(
        records.len(),
        |i: int| ta_mrn_known(records[i], views) && has_status(statuses, records[i].ncts_status@),
    )
}

/// Whether a report line is a transit declaration (type "TA" in column 1).
pub open spec fn ta_report_row(row: Seq<String>) -> bool {
    row[1]@ == "TA"@
}

/// The check-pass verdict of every line of a report.
pub open spec fn ta_report_flags(rows: Seq<Vec<String>>) -> Seq<bool> {
    Seq::new(rows.len(), |i: int| ta_report_row(rows[i]@))
}

/// The dossier row of a transit record, given the customer, the country and
/// the ISO text of its declaration date.
pub open spec fn ta_dossier(item: TARecords, klant_id: u64, land_id: Option<u64>, date: Seq<char>, d: Dossier) -> bool {
    &&& d.id is None
    &&& d.mrn@ == item.mrn@
    &&& d.fk_klant_id == klant_id
    &&& d.fk_landscode_id == land_id
    &&& d.declaratie_datum@ == date
    &&& d.manually_created == 0
}

/// Law: the check pass never both removes and updates the dossier of the
/// same transit record.
pub proof fn lemma_ta_removal_update_disjoint(
    records: Seq<TARecords>,
    views: Seq<TaRapportView>,
    statuses: Seq<NctsStatus>,
)
    ensures
        forall|j1: int, j2: int|
            0 <= j1 < first_per_key(
                ta_mrns(records),
                ta_removal_flags(records, views, statuses),
                records.len() as int,
            ).len() && 0 <= j2 < first_per_key(
                ta_mrns(records),
                ta_update_flags(records, views, statuses),
                records.len() as int,
            ).len() ==> #[trigger] first_per_key(
                ta_mrns(records),
                ta_removal_flags(records, views, statuses),
                records.len() as int,
            )[j1] != #[trigger] first_per_key(
                ta_mrns(records),
                ta_update_flags(records, views, statuses),
                records.len() as int,
            )[j2],
{
    lemma_first_per_key_exclusive(
        ta_mrns(records),
        ta_mrns(records),
        ta_removal_flags(records, views, statuses),
        ta_update_flags(records, views, statuses),
        records.len() as int,
    );
}

/// Law: the check pass touches only records whose MRN the view knows; a
/// record whose dossier is gone from the view is neither removed nor updated.
pub proof fn lemma_ta_check_known_only(
    records: Seq<TARecords>,
    views: Seq<TaRapportView>,
    statuses: Seq<NctsStatus>,
)
    ensures
        forall|j: int|
            0 <= j < first_per_key(
                ta_mrns(records),
                ta_removal_flags(records, views, statuses),
                records.len() as int,
            ).len() ==> ta_mrn_known(
                records[#[trigger] first_per_key(
                    ta_mrns(records),
                    ta_removal_flags(records, views, statuses),
                    records.len() as int,
                )[j]],
                views,
            ),
        forall|j: int|
            0 <= j < first_per_key(
                ta_mrns(records),
                ta_update_flags(records, views, statuses),
                records.len() as int,
            ).len() ==> ta_mrn_known(
                records[#[trigger] first_per_key(
                    ta_mrns(records),
                    ta_update_flags(records, views, statuses),
                    records.len() as int,
                )[j]],
                views,
            ),
{
    lemma_first_per_key_shape(
        ta_mrns(records),
        ta_mrns(records),
        ta_removal_flags(records, views, statuses),
        records.len() as int,
    );
    lemma_first_per_key_shape(
        ta_mrns(records),
        ta_mrns(records),
        ta_update_flags(records, views, statuses),
        records.len() as int,
    );
}

/// The test of the check pass on a report line, as a predicate on lines.
pub open spec fn ta_line_test() -> spec_fn(Vec<String>) -> bool {
    |r: Vec<String>| ta_report_row(r@)
}

/// The transit declaration lines of a report that the check pass reads, in order.
pub open spec fn ta_report_lines(rows: Seq<Vec<String>>) -> Seq<Vec<String>> {
    positions_where(ta_report_flags(rows), rows.len() as int).map_values(|i: int| rows[i])
}

/// The lines taken among the first `n` are those that pass the test.
proof fn lemma_ta_report_lines_prefix(rows: Seq<Vec<String>>, n: int)
    requires
        0 <= n <= rows.len(),
    ensures
        positions_where(ta_report_flags(rows), n).map_values(|i: int| rows[i]) == rows.take(n).filter(
            ta_line_test(),
        ),
    decreases n,
{
    if n > 0 {
        lemma_ta_report_lines_prefix(rows, n - 1);
        assert(rows.take(n) == rows.take(n - 1).push(rows[n - 1]));
        rows.take(n - 1).lemma_filter_push(rows[n - 1], ta_line_test());
        let prev = positions_where(ta_report_flags(rows), n - 1);
        if ta_report_flags(rows)[n - 1] {
            assert(prev.push(n - 1).map_values(|i: int| rows[i]) =~= prev.map_values(|i: int| rows[i]).push(
                rows[n - 1],
            ));
        }
    } else {
        assert(rows.take(0) =~= Seq::<Vec<String>>::empty());
        assert(Seq::<Vec<String>>::empty().filter(ta_line_test()) =~= Seq::<Vec<String>>::empty()) by {
            reveal(Seq::filter);
        }
    }
}

/// Law: lines of another declaration type (column 1 not "TA") do not change
/// the lines that the check pass reads, wherever they stand in the report.
pub proof fn lemma_ta_report_lines_ignore_other_types(
    before: Seq<Vec<String>>,
    line: Vec<String>,
    after: Seq<Vec<String>>,
)
    requires
        line@.len() >= 2,
        line@[1]@ != "TA"@,
    ensures
        ta_report_lines(before + seq![line] + after) == ta_report_lines(before + after),
{
    let with = before + seq![line] + after;
    let without = before + after;
    lemma_ta_report_lines_prefix(with, with.len() as int);
    lemma_ta_report_lines_prefix(without, without.len() as int);
    assert(with.take(with.len() as int) == with);
    assert(without.take(without.len() as int) == without);
    Seq::filter_distributes_over_add(before + seq![line], after, ta_line_test());
    Seq::filter_distributes_over_add(before, seq![line], ta_line_test());
    Seq::filter_distributes_over_add(before, after, ta_line_test());
    Seq::<Vec<String>>::empty().lemma_filter_push(line, ta_line_test());
    assert(seq![line] == Seq::<Vec<String>>::empty().push(line));
    assert(Seq::<Vec<String>>::empty().filter(ta_line_test()) =~= Seq::<Vec<String>>::empty()) by {
        reveal(Seq::filter);
    }
    assert(before.filter(ta_line_test()) + Seq::<Vec<String>>::empty() =~= before.filter(
        ta_line_test(),
    ));
}

/// The change asked for an MRN whose report line has a known status, given
/// the view rows of that MRN and the status rows of that status.
pub open spec fn ta_update_change(views: Seq<TaRapportView>, statuses: Seq<NctsStatus>) -> Result<
    RapportChange,
    LoadError,
> {
    if statuses.len() == 0 {
        Err(LoadError::NoStatusRow)
    } else if views.len() > 1 {
        Ok(RapportChange::RemoveDossier { dossier_id: views[1].dossier_id })
    } else if views.len() == 1 {
        match statuses[0].id {
            None => Err(LoadError::StatusWithoutId),
            Some(s) => if views[0].fk_ncts_status_id != s {
                Ok(RapportChange::SetStatus { dossier_id: views[0].dossier_id, ncts_status_id: s })
            } else {
                Ok(RapportChange::Unchanged)
            },
        }
    } else {
        Ok(RapportChange::Unchanged)
    }
}

/// Law: once the change asked for a single dossier is made (its status set
/// to the status asked for), the same update asks for nothing more.
pub proof fn lemma_ta_update_settles(v: TaRapportView, updated: TaRapportView, statuses: Seq<NctsStatus>)
    requires
        statuses.len() > 0,
        statuses[0].id is Some,
        updated.dossier_id == v.dossier_id,
        updated.fk_ncts_status_id == statuses[0].id->0,
    ensures
        ta_update_change(seq![v], statuses) == Ok::<RapportChange, LoadError>(
            RapportChange::SetStatus { dossier_id: v.dossier_id, ncts_status_id: statuses[0].id->0 },
        ) || ta_update_change(seq![v], statuses) == Ok::<RapportChange, LoadError>(
            RapportChange::Unchanged,
        ),
        ta_update_change(seq![updated], statuses) == Ok::<RapportChange, LoadError>(
            RapportChange::Unchanged,
        ),
{
}

/// Law: for a single dossier of the MRN and a status row with an id, the
/// dossier gets the status of the report line exactly when its current
/// status differs from it (in either direction), and is left unchanged
/// exactly when they are equal.
pub proof fn lemma_ta_update_single_dossier(v: TaRapportView, statuses: Seq<NctsStatus>)
    requires
        statuses.len() > 0,
        statuses[0].id is Some,
    ensures
        v.fk_ncts_status_id != statuses[0].id->0 ==> ta_update_change(seq![v], statuses) == Ok::<
            RapportChange,
            LoadError,
        >(RapportChange::SetStatus { dossier_id: v.dossier_id, ncts_status_id: statuses[0].id->0 }),
        v.fk_ncts_status_id == statuses[0].id->0 ==> ta_update_change(seq![v], statuses) == Ok::<
            RapportChange,
            LoadError,
        >(RapportChange::Unchanged),
        v.fk_ncts_status_id < statuses[0].id->0 || v.fk_ncts_status_id > statuses[0].id->0 <==> ta_update_change(
            seq![v],
            statuses,
        ) is Ok && ta_update_change(seq![v], statuses) != Ok::<RapportChange, LoadError>(
            RapportChange::Unchanged,
        ),
{
}

impl TaRapportConnection {
    /// Whether a line is a transit declaration; the line has at least two columns.
    pub fn is_ta_report_row(row: &Vec<String>) -> (res: bool)
        requires
            row.len() >= 2,
        ensures
            res == ta_report_row(row@),
    {
        text_is(&row[1], "TA")
    }

    /// The positions of the transit declaration lines of a report, in order.
    pub fn select_ta_report_rows(rows: &Vec<Vec<String>>) -> (res: Vec<usize>)
        requires
            forall|i: int| 0 <= i < rows.len() ==> #[trigger] rows@[i]@.len() >= 2,
        ensures
            as_positions(res@) == positions_where(ta_report_flags(rows@), rows.len() as int),
    {
        let mut res: Vec<usize> = Vec::new();
        let mut i: usize = 0;
        while i < rows.len()
            invariant
                i <= rows.len(),
                forall|k: int| 0 <= k < rows.len() ==> #[trigger] rows@[k]@.len() >= 2,
                as_positions(res@) == positions_where(ta_report_flags(rows@), i as int),
            decreases rows.len() - i,
        {
            if Self::is_ta_report_row(&rows[i]) {
                res.push(i);
            }
            assert(as_positions(res@) == positions_where(ta_report_flags(rows@), i + 1));
            i = i + 1;
        }
        res
    }

    /// Whether the MRN of a record is in the declaration view.
    pub fn mrn_known(item: &TARecords, views: &Vec<TaRapportView>) -> (res: bool)
        ensures
            res == ta_mrn_known(*item, views@),
    {
        let mut j: usize = 0;
        while j < views.len()
            invariant
                j <= views.len(),
                forall|k: int| 0 <= k < j ==> views@[k].mrn@ != item.mrn@,
            decreases views.len() - j,
        {
            if views[j].mrn == item.mrn {
                return true;
            }
            j = j + 1;
        }
        false
    }

    /// Splits the transit records of a report against the tables: the first
    /// record of each MRN that the view knows but whose status the status
    /// table does not (its dossier is removed), and the first record of each
    /// MRN that the view knows with a known status (its dossier is updated).
    pub fn classify_records(
        records: &Vec<TARecords>,
        views: &Vec<TaRapportView>,
        statuses: &Vec<NctsStatus>,
    ) -> (res: (Vec<usize>, Vec<usize>))
        ensures
            as_positions(res.0@) == first_per_key(
                ta_mrns(records@),
                ta_removal_flags(records@, views@, statuses@),
                records.len() as int,
            ),
            as_positions(res.1@) == first_per_key(
                ta_mrns(records@),
                ta_update_flags(records@, views@, statuses@),
                records.len() as int,
            ),
    {
        let mut keys: Vec<String> = Vec::new();
        let mut removal: Vec<bool> = Vec::new();
        let mut update: Vec<bool> = Vec::new();
        let mut i: usize = 0;
        while i < records.len()
            invariant
                i <= records.len(),
                keys.len() == i,
                removal.len() == i,
                update.len() == i,
                forall|k: int| 0 <= k < i ==> #[trigger] keys@[k]@ == records@[k].mrn@,
                forall|k: int|
                    0 <= k < i ==> #[trigger] removal@[k] == ta_removal_flags(
                        records@,
                        views@,
                        statuses@,
                    )[k],
                forall|k: int|
                    0 <= k < i ==> #[trigger] update@[k] == ta_update_flags(
                        records@,
                        views@,
                        statuses@,
                    )[k],
            decreases records.len() - i,
        {
            let known = Self::mrn_known(&records[i], views);
            let status_known = find_ncts_status(statuses, &records[i].ncts_status).is_some();
            keys.push(records[i].mrn.clone());
            removal.push(known && !status_known);
            update.push(known && status_known);
            i = i + 1;
        }
        assert(texts(keys@) =~= ta_mrns(records@));
        assert(removal@ =~= ta_removal_flags(records@, views@, statuses@));
        assert(update@ =~= ta_update_flags(records@, views@, statuses@));
        (first_selected_per_key(&keys, &removal), first_selected_per_key(&keys, &update))
    }

    /// The dossier row for a transit record taken by the load pass, with the
    /// id of its status row; fails, in this order, when the record's customer,
    /// country or status is not in its table, when its declaration date is not
    /// a day/month/year date, or when the customer row has no id.
    pub fn prepare_dossier(
        item: &TARecords,
        klants: &Vec<Klant>,
        lands: &Vec<Land>,
        statuses: &Vec<NctsStatus>,
    ) -> (res: Result<TaDossierPlan, LoadError>)
        ensures
            !has_klant(klants@, item.klant@) <==> res == Err::<TaDossierPlan, LoadError>(
                LoadError::UnknownKlant,
            ),
            has_klant(klants@, item.klant@) && !has_land(lands@, item.land@) <==> res == Err::<
                TaDossierPlan,
                LoadError,
            >(LoadError::UnknownLand),
            has_klant(klants@, item.klant@) && has_land(lands@, item.land@) && !has_status(
                statuses@,
                item.ncts_status@,
            ) <==> res == Err::<TaDossierPlan, LoadError>(LoadError::UnknownStatus),
            has_klant(klants@, item.klant@) && has_land(lands@, item.land@) && has_status(
                statuses@,
                item.ncts_status@,
            ) && chrono_parsed_date(item.declaratie_datum@, report_date_format()) is None
                <==> res == Err::<TaDossierPlan, LoadError>(LoadError::InvalidDate),
            res == Err::<TaDossierPlan, LoadError>(LoadError::KlantWithoutId) <==> (has_klant(
                klants@,
                item.klant@,
            ) && has_land(lands@, item.land@) && has_status(statuses@, item.ncts_status@)
                && chrono_parsed_date(item.declaratie_datum@, report_date_format()) is Some
                && forall|k: int| is_first_klant(klants@, item.klant@, k) ==> klants@[k].id is None),
            (has_klant(klants@, item.klant@) && has_land(lands@, item.land@) && has_status(
                statuses@,
                item.ncts_status@,
            ) && chrono_parsed_date(item.declaratie_datum@, report_date_format()) is Some && forall|
                k: int,
            | is_first_klant(klants@, item.klant@, k) ==> klants@[k].id is Some) ==> res is Ok,
            res matches Err(e) ==> e == LoadError::UnknownKlant || e == LoadError::UnknownLand || e
                == LoadError::UnknownStatus || e == LoadError::InvalidDate || e
                == LoadError::KlantWithoutId,
            res matches Ok(plan) ==> exists|k: int, l: int, s: int|
                #![trigger is_first_klant(klants@, item.klant@, k), is_first_land(lands@, item.land@, l), is_first_status(statuses@, item.ncts_status@, s)]
                is_first_klant(klants@, item.klant@, k) && is_first_land(lands@, item.land@, l)
                    && is_first_status(statuses@, item.ncts_status@, s) && klants@[k].id is Some
                    && plan.ncts_status_id == statuses@[s].id && match chrono_parsed_date(
                    item.declaratie_datum@,
                    report_date_format(),
                ) {
                    Some((y, m, d)) => ta_dossier(
                        *item,
                        klants@[k].id->0,
                        lands@[l].id,
                        iso_date(y as int, m as nat, d as nat),
                        plan.dossier,
                    ),
                    None => false,
                },
    {
        let k = match find_klant(klants, &item.klant) {
            Some(k) => k,
            None => {
                return Err(LoadError::UnknownKlant);
            },
        };
        let l = match find_land(lands, &item.land) {
            Some(l) => l,
            None => {
                return Err(LoadError::UnknownLand);
            },
        };
        let s = match find_ncts_status(statuses, &item.ncts_status) {
            Some(s) => s,
            None => {
                return Err(LoadError::UnknownStatus);
            },
        };
        let date = match declaration_date_iso(item.declaratie_datum.as_str()) {
            Some(date) => date,
            None => {
                return Err(LoadError::InvalidDate);
            },
        };
        let klant_id = match klants[k].id {
            Some(id) => id,
            None => {
                return Err(LoadError::KlantWithoutId);
            },
        };
        let dossier = Dossier {
            id: None,
            mrn: item.mrn.clone(),
            fk_klant_id: klant_id,
            fk_landscode_id: lands[l].id,
            declaratie_datum: date,
            manually_created: 0,
        };
        Ok(TaDossierPlan { dossier, ncts_status_id: statuses[s].id })
    }

    /// The report row that follows a new dossier: the dossier's id, the id of
    /// the record's status, and as risk the text of customs duty plus VAT cut
    /// two digits after the decimal point; fails when the status row has no id.
    pub fn rapport_for(dossier_id: i64, ncts_status_id: Option<i64>, risk_text: &str) -> (res:
        Result<TaRapport, LoadError>)
        ensures
            ncts_status_id is None <==> res == Err::<TaRapport, LoadError>(
                LoadError::StatusWithoutId,
            ),
            res is Err ==> ncts_status_id is None,
            res matches Ok(r) ==> {
                &&& r.id is None
                &&& r.fk_dossier_id == dossier_id
                &&& r.fk_ncts_status_id == ncts_status_id->0
                &&& r.opmerking is None
                &&& r.aanvullend is None
                &&& r.opt_in_out is None
                &&& r.vervoerder is None
                &&& r.risico matches Some(t) && t@ == two_decimal_text(risk_text@)
            },
    {
        match ncts_status_id {
            None => Err(LoadError::StatusWithoutId),
            Some(status_id) => Ok(
                TaRapport {
                    id: None,
                    fk_dossier_id: dossier_id,
                    fk_ncts_status_id: status_id,
                    opmerking: None,
                    aanvullend: None,
                    risico: Some(cut_to_two_decimals(risk_text)),
                    opt_in_out: None,
                    vervoerder: None,
                },
            ),
        }
    }

    /// Whether a dossier picked for removal is removed: only when report rows
    /// of it were found; then its report rows and the dossier itself go.
    pub fn removal_confirmed(dossier_id: i64, rapports: &Vec<TaRapport>) -> (res: Option<i64>)
        ensures
            rapports.len() > 0 <==> res is Some,
            res matches Some(id) ==> id == dossier_id,
    {
        if rapports.len() > 0 {
            Some(dossier_id)
        } else {
            None
        }
    }

    /// The dossier of the first view row of an MRN, whose rows are removed.
    pub fn removal_dossier(views: &Vec<TaRapportView>) -> (res: Option<i64>)
        ensures
            views.len() == 0 <==> res is None,
            res matches Some(id) ==> id == views@[0].dossier_id,
    {
        if views.len() == 0 {
            None
        } else {
            Some(views[0].dossier_id)
        }
    }

    /// The change for an MRN whose report line has a known status, given the
    /// view rows of that MRN and the status rows of that status: a second
    /// dossier of the MRN is removed; a single dossier whose status differs
    /// gets the new status; otherwise nothing changes. Fails when no status
    /// row was found, or when the status id is needed and missing.
    pub fn plan_update(views: &Vec<TaRapportView>, statuses: &Vec<NctsStatus>) -> (res: Result<
        RapportChange,
        LoadError,
    >)
        ensures
            res == ta_update_change(views@, statuses@),
    {
        if statuses.len() == 0 {
            return Err(LoadError::NoStatusRow);
        }
        let status_id = statuses[0].id;
        if views.len() > 1 {
            Ok(RapportChange::RemoveDossier { dossier_id: views[1].dossier_id })
        } else if views.len() > 0 {
            match status_id {
                None => Err(LoadError::StatusWithoutId),
                Some(s) => {
                    if views[0].fk_ncts_status_id != s {
                        Ok(RapportChange::SetStatus { dossier_id: views[0].dossier_id, ncts_status_id: s })
                    } else {
                        Ok(RapportChange::Unchanged)
                    }
                },
            }
        } else {
            Ok(RapportChange::Unchanged)
        }
    }
}

} // verus!
