use vstd::prelude::*;

verus! {

/// A row of the `dossier` table: one declaration, keyed by its MRN.
#[derive(Clone, Debug, PartialEq, Eq)]
pub struct Dossier {
    pub id: Option<u64>,
    pub mrn: String,
    pub fk_klant_id: u64,
    pub fk_landscode_id: Option<u64>,
    pub declaratie_datum: String,
    pub manually_created: u64,
}

/// A row of the `klant` table: a customer ("BU / Operation").
#[derive(Clone, Debug, PartialEq, Eq)]
pub struct Klant {
    pub id: Option<u64>,
    pub klantnaam: String,
    pub referentie: Option<String>,
}

/// A row of the `land` table: a country by its two-letter code.
#[derive(Clone, Debug, PartialEq, Eq)]
pub struct Land {
    pub id: Option<u64>,
    pub land_code_twee: String,
}

/// A row of the `ncts_status` table: a status code of the NCTS transit system.
#[derive(Clone, Debug, PartialEq, Eq)]
pub struct NctsStatus {
    pub id: Option<i64>,
    pub status: String,
}

/// Why a report record cannot be turned into database rows. These are the
/// data on which the loader stops: the program fails with the error.
#[derive(Clone, Copy, Debug, PartialEq, Eq)]
pub enum LoadError {
    /// No customer of the record's name is in the customer table.
    UnknownKlant,
    /// The customer of the record's name has no id.
    KlantWithoutId,
    /// No country of the record's destination code is in the country table.
    UnknownLand,
    /// No row of the record's NCTS status is in the status table.
    UnknownStatus,
    /// The status row found has no id.
    StatusWithoutId,
    /// The declaration date is not a day/month/year date.
    InvalidDate,
    /// The status lookup of an update found no row.
    NoStatusRow,
    /// The view lookup of an update found no row.
    NoViewRow,
}

/// The change that a status update asks of the tables for one MRN.
#[derive(Clone, Copy, Debug, PartialEq, Eq)]
pub enum RapportChange {
    /// Delete the report rows and the dossier of this dossier id.
    RemoveDossier { dossier_id: i64 },
    /// Set the status of the report row of this dossier.
    SetStatus { dossier_id: i64, ncts_status_id: i64 },
    /// Nothing to change.
    Unchanged,
}

/// Whether `i` is the first position of `klants` whose name is `name`.
pub open spec fn is_first_klant(klants: Seq<Klant>, name: Seq<char>, i: int) -> bool {
    &&& 0 <= i < klants.len()
    &&& klants[i].klantnaam@ == name
    &&& forall|j: int| 0 <= j < i ==> klants[j].klantnaam@ != name
}

/// Whether some customer of `klants` is named `name`.
pub open spec fn has_klant(klants: Seq<Klant>, name: Seq<char>) -> bool {
    exists|j: int| 0 <= j < klants.len() && klants[j].klantnaam@ == name
}

/// Whether `i` is the first position of `lands` whose code is `code`.
pub open spec fn is_first_land(lands: Seq<Land>, code: Seq<char>, i: int) -> bool {
    &&& 0 <= i < lands.len()
    &&& lands[i].land_code_twee@ == code
    &&& forall|j: int| 0 <= j < i ==> lands[j].land_code_twee@ != code
}

/// Whether some country of `lands` has the code `code`.
pub open spec fn has_land(lands: Seq<Land>, code: Seq<char>) -> bool {
    exists|j: int| 0 <= j < lands.len() && lands[j].land_code_twee@ == code
}

/// Whether `i` is the first position of `statuses` whose code is `status`.
pub open spec fn is_first_status(statuses: Seq<NctsStatus>, status: Seq<char>, i: int) -> bool {
    &&& 0 <= i < statuses.len()
    &&& statuses[i].status@ == status
    &&& forall|j: int| 0 <= j < i ==> statuses[j].status@ != status
}

/// Whether some row of `statuses` has the code `status`.
pub open spec fn has_status(statuses: Seq<NctsStatus>, status: Seq<char>) -> bool {
    exists|j: int| 0 <= j < statuses.len() && statuses[j].status@ == status
}

/// The position of the first customer named `name`, if any.
pub fn find_klant(klants: &Vec<Klant>, name: &String) -> (res: Option<usize>)
    ensures
        res matches Some(i) ==> is_first_klant(klants@, name@, i as int),
        res is None <==> !has_klant(klants@, name@),
{
    let mut i: usize = 0;
    while i < klants.len()
        invariant
            i <= klants.len(),
            forall|j: int| 0 <= j < i ==> klants@[j].klantnaam@ != name@,
        decreases klants.len() - i,
    {
        if klants[i].klantnaam == *name {
            return Some(i);
        }
        i = i + 1;
    }
    None
}

/// The position of the first country with the code `code`, if any.
pub fn find_land(lands: &Vec<Land>, code: &String) -> (res: Option<usize>)
    ensures
        res matches Some(i) ==> is_first_land(lands@, code@, i as int),
        res is None <==> !has_land(lands@, code@),
{
    let mut i: usize = 0;
    while i < lands.len()
        invariant
            i <= lands.len(),
            forall|j: int| 0 <= j < i ==> lands@[j].land_code_twee@ != code@,
        decreases lands.len() - i,
    {
        if lands[i].land_code_twee == *code {
            return Some(i);
        }
        i = i + 1;
    }
    None
}

/// The position of the first status row with the code `status`, if any.
pub fn find_ncts_status(statuses: &Vec<NctsStatus>, status: &String) -> (res: Option<usize>)
    ensures
        res matches Some(i) ==> is_first_status(statuses@, status@, i as int),
        res is None <==> !has_status(statuses@, status@),
{
    let mut i: usize = 0;
    while i < statuses.len()
        invariant
            i <= statuses.len(),
            forall|j: int| 0 <= j < i ==> statuses@[j].status@ != status@,
        decreases statuses.len() - i,
    {
        if statuses[i].status == *status {
            return Some(i);
        }
        i = i + 1;
    }
    None
}

/// The customer row to insert for a report record's customer name: a new row
/// without id or reference when no customer of that name exists yet.
pub open spec fn klant_insert_for(klants: Seq<Klant>, name: Seq<char>) -> Option<Seq<char>> {
    if has_klant(klants, name) {
        None
    } else {
        Some(name)
    }
}

/// The status row to insert for a report record's NCTS status: a new row
/// without id when no row of that status exists yet.
pub open spec fn status_insert_for(statuses: Seq<NctsStatus>, status: Seq<char>) -> Option<Seq<char>> {
    if has_status(statuses, status) {
        None
    } else {
        Some(status)
    }
}

/// Decides, for one report record, whether its customer must be added to the
/// customer table: `Some` new row (no id, no reference) exactly when no
/// customer of that name is in `klants`.
pub fn klant_to_insert(klants: &Vec<Klant>, name: &String) -> (res: Option<Klant>)
    ensures
        match klant_insert_for(klants@, name@) {
            Some(n) => res matches Some(k) && k.id is None && k.klantnaam@ == n && k.referentie
                is None,
            None => res is None,
        },
{
    match find_klant(klants, name) {
        Some(_) => None,
        None => Some(Klant { id: None, klantnaam: name.clone(), referentie: None }),
    }
}

/// Decides, for one report record, whether its NCTS status must be added to
/// the status table: `Some` new row (no id) exactly when no row of that
/// status is in `statuses`.
pub fn ncts_status_to_insert(statuses: &Vec<NctsStatus>, status: &String) -> (res: Option<
    NctsStatus,
>)
    ensures
        match status_insert_for(statuses@, status@) {
            Some(s) => res matches Some(row) && row.id is None && row.status@ == s,
            None => res is None,
        },
{
    match find_ncts_status(statuses, status) {
        Some(_) => None,
        None => Some(NctsStatus { id: None, status: status.clone() }),
    }
}

/// The customer table after the customer pass over the names `names`: each
/// name not yet present is added, in order, as the row `added(name)` that the
/// table stores for it.
pub open spec fn klants_after(klants: Seq<Klant>, names: Seq<Seq<char>>, added: spec_fn(Seq<char>) -> Klant) -> Seq<Klant>
    decreases names.len(),
{
    if names.len() == 0 {
        klants
    } else {
        let before = klants_after(klants, names.drop_last(), added);
        match klant_insert_for(before, names.last()) {
            Some(n) => before.push(added(n)),
            None => before,
        }
    }
}

/// The status table after the status pass over the codes `codes`: each
/// code not yet present is added, in order, as the row `added(code)` that the
/// table stores for it.
pub open spec fn statuses_after(
    statuses: Seq<NctsStatus>,
    codes: Seq<Seq<char>>,
    added: spec_fn(Seq<char>) -> NctsStatus,
) -> Seq<NctsStatus>
    decreases codes.len(),
{
    if codes.len() == 0 {
        statuses
    } else {
        let before = statuses_after(statuses, codes.drop_last(), added);
        match status_insert_for(before, codes.last()) {
            Some(n) => before.push(added(n)),
            None => before,
        }
    }
}

/// Law: adding a customer is idempotent — once the row that
/// `klant_to_insert` asked for is in the table, no second row is asked for
/// that name.
pub proof fn lemma_klant_insert_idempotent(klants: Seq<Klant>, name: Seq<char>, row: Klant)
    requires
        klant_insert_for(klants, name) is Some,
        row.klantnaam@ == name,
    ensures
        klant_insert_for(klants.push(row), name) is None,
{
    assert(klants.push(row)[klants.len() as int].klantnaam@ == name);
}

/// Law: adding a status is idempotent — once the row that
/// `ncts_status_to_insert` asked for is in the table, no second row is asked
/// for that status.
pub proof fn lemma_status_insert_idempotent(statuses: Seq<NctsStatus>, status: Seq<char>, row: NctsStatus)
    requires
        status_insert_for(statuses, status) is Some,
        row.status@ == status,
    ensures
        status_insert_for(statuses.push(row), status) is None,
{
    assert(statuses.push(row)[statuses.len() as int].status@ == status);
}

/// Law: after the customer pass over a report's records, every record's
/// customer is in the table, so the lookup of the load step finds it; rows
/// present before the pass stay where they were.
pub proof fn lemma_klants_after_covers(
    klants: Seq<Klant>,
    names: Seq<Seq<char>>,
    added: spec_fn(Seq<char>) -> Klant,
)
    requires
        forall|n: Seq<char>| #[trigger] added(n).klantnaam@ == n,
    ensures
        forall|i: int| 0 <= i < names.len() ==> has_klant(klants_after(klants, names, added), #[trigger] names[i]),
        klants_after(klants, names, added).len() >= klants.len(),
        forall|j: int| 0 <= j < klants.len() ==> #[trigger] klants_after(klants, names, added)[j] == klants[j],
    decreases names.len(),
{
    if names.len() > 0 {
        let prefix = names.drop_last();
        lemma_klants_after_covers(klants, prefix, added);
        let before = klants_after(klants, prefix, added);
        let after = klants_after(klants, names, added);
        assert forall|i: int| 0 <= i < names.len() implies has_klant(after, #[trigger] names[i]) by {
            if i < names.len() - 1 {
                assert(prefix[i] == names[i]);
                let j = choose|j: int| 0 <= j < before.len() && before[j].klantnaam@ == names[i];
                assert(after[j] == before[j]);
            } else {
                match klant_insert_for(before, names.last()) {
                    Some(n) => {
                        assert(after[before.len() as int] == added(n));
                    },
                    None => {},
                }
            }
        }
        assert forall|j: int| 0 <= j < klants.len() implies #[trigger] after[j] == klants[j] by {
            assert(after[j] == before[j]);
        }
    }
}

/// Law: after the status pass over a report's records, every record's
/// status is in the table, so the lookup of the load step finds it; rows
/// present before the pass stay where they were.
pub proof fn lemma_statuses_after_covers(
    statuses: Seq<NctsStatus>,
    codes: Seq<Seq<char>>,
    added: spec_fn(Seq<char>) -> NctsStatus,
)
    requires
        forall|n: Seq<char>| #[trigger] added(n).status@ == n,
    ensures
        forall|i: int| 0 <= i < codes.len() ==> has_status(statuses_after(statuses, codes, added), #[trigger] codes[i]),
        statuses_after(statuses, codes, added).len() >= statuses.len(),
        forall|j: int| 0 <= j < statuses.len() ==> #[trigger] statuses_after(statuses, codes, added)[j] == statuses[j],
    decreases codes.len(),
{
    if codes.len() > 0 {
        let prefix = codes.drop_last();
        lemma_statuses_after_covers(statuses, prefix, added);
        let before = statuses_after(statuses, prefix, added);
        let after = statuses_after(statuses, codes, added);
        assert forall|i: int| 0 <= i < codes.len() implies has_status(after, #[trigger] codes[i]) by {
            if i < codes.len() - 1 {
                assert(prefix[i] == codes[i]);
                let j = choose|j: int| 0 <= j < before.len() && before[j].status@ == codes[i];
                assert(after[j] == before[j]);
            } else {
                match status_insert_for(before, codes.last()) {
                    Some(n) => {
                        assert(after[before.len() as int] == added(n));
                    },
                    None => {},
                }
            }
        }
        assert forall|j: int| 0 <= j < statuses.len() implies #[trigger] after[j] == statuses[j] by {
            assert(after[j] == before[j]);
        }
    }
}


/// Whether no two customers of `klants` have the same name.
pub open spec fn klant_names_unique(klants: Seq<Klant>) -> bool {
    forall|i: int, j: int|
        0 <= i < klants.len() && 0 <= j < klants.len() && i != j ==> #[trigger] klants[i].klantnaam@
            != #[trigger] klants[j].klantnaam@
}

/// Whether no two rows of `statuses` have the same status.
pub open spec fn status_codes_unique(statuses: Seq<NctsStatus>) -> bool {
    forall|i: int, j: int|
        0 <= i < statuses.len() && 0 <= j < statuses.len() && i != j ==> #[trigger] statuses[i].status@
            != #[trigger] statuses[j].status@
}

/// Law: the customer pass keeps customer names unique, even when the
/// records repeat a name.
pub proof fn lemma_klants_after_unique(
    klants: Seq<Klant>,
    names: Seq<Seq<char>>,
    added: spec_fn(Seq<char>) -> Klant,
)
    requires
        klant_names_unique(klants),
        forall|n: Seq<char>| #[trigger] added(n).klantnaam@ == n,
    ensures
        klant_names_unique(klants_after(klants, names, added)),
    decreases names.len(),
{
    if names.len() > 0 {
        lemma_klants_after_unique(klants, names.drop_last(), added);
        let before = klants_after(klants, names.drop_last(), added);
        let after = klants_after(klants, names, added);
        match klant_insert_for(before, names.last()) {
            Some(n) => {
                assert forall|i: int, j: int|
                    0 <= i < after.len() && 0 <= j < after.len() && i != j implies #[trigger] after[i].klantnaam@
                    != #[trigger] after[j].klantnaam@ by {
                    if i < before.len() && j < before.len() {
                        assert(after[i] == before[i] && after[j] == before[j]);
                    } else if i < before.len() {
                        assert(after[i] == before[i]);
                        assert(after[j] == added(n));
                    } else {
                        assert(after[j] == before[j]);
                        assert(after[i] == added(n));
                    }
                }
            },
            None => {},
        }
    }
}

/// The customer pass leaves a table unchanged when every name is in it.
proof fn lemma_klants_after_present(
    klants: Seq<Klant>,
    names: Seq<Seq<char>>,
    added: spec_fn(Seq<char>) -> Klant,
)
    requires
        forall|i: int| 0 <= i < names.len() ==> has_klant(klants, #[trigger] names[i]),
    ensures
        klants_after(klants, names, added) == klants,
    decreases names.len(),
{
    if names.len() > 0 {
        let prefix = names.drop_last();
        assert forall|i: int| 0 <= i < prefix.len() implies has_klant(klants, #[trigger] prefix[i]) by {
            assert(prefix[i] == names[i]);
        }
        lemma_klants_after_present(klants, prefix, added);
        assert(has_klant(klants, names[names.len() - 1]));
    }
}

/// Law: running the customer pass a second time over the same records adds
/// nothing.
pub proof fn lemma_klants_after_twice(
    klants: Seq<Klant>,
    names: Seq<Seq<char>>,
    added: spec_fn(Seq<char>) -> Klant,
)
    requires
        forall|n: Seq<char>| #[trigger] added(n).klantnaam@ == n,
    ensures
        klants_after(klants_after(klants, names, added), names, added) == klants_after(
            klants,
            names,
            added,
        ),
{
    lemma_klants_after_covers(klants, names, added);
    lemma_klants_after_present(klants_after(klants, names, added), names, added);
}

/// Law: the status pass keeps status codes unique, even when the records
/// repeat a status.
pub proof fn lemma_statuses_after_unique(
    statuses: Seq<NctsStatus>,
    codes: Seq<Seq<char>>,
    added: spec_fn(Seq<char>) -> NctsStatus,
)
    requires
        status_codes_unique(statuses),
        forall|n: Seq<char>| #[trigger] added(n).status@ == n,
    ensures
        status_codes_unique(statuses_after(statuses, codes, added)),
    decreases codes.len(),
{
    if codes.len() > 0 {
        lemma_statuses_after_unique(statuses, codes.drop_last(), added);
        let before = statuses_after(statuses, codes.drop_last(), added);
        let after = statuses_after(statuses, codes, added);
        match status_insert_for(before, codes.last()) {
            Some(n) => {
                assert forall|i: int, j: int|
                    0 <= i < after.len() && 0 <= j < after.len() && i != j implies #[trigger] after[i].status@
                    != #[trigger] after[j].status@ by {
                    if i < before.len() && j < before.len() {
                        assert(after[i] == before[i] && after[j] == before[j]);
                    } else if i < before.len() {
                        assert(after[i] == before[i]);
                        assert(after[j] == added(n));
                    } else {
                        assert(after[j] == before[j]);
                        assert(after[i] == added(n));
                    }
                }
            },
            None => {},
        }
    }
}

/// The status pass leaves a table unchanged when every code is in it.
proof fn lemma_statuses_after_present(
    statuses: Seq<NctsStatus>,
    codes: Seq<Seq<char>>,
    added: spec_fn(Seq<char>) -> NctsStatus,
)
    requires
        forall|i: int| 0 <= i < codes.len() ==> has_status(statuses, #[trigger] codes[i]),
    ensures
        statuses_after(statuses, codes, added) == statuses,
    decreases codes.len(),
{
    if codes.len() > 0 {
        let prefix = codes.drop_last();
        assert forall|i: int| 0 <= i < prefix.len() implies has_status(statuses, #[trigger] prefix[i]) by {
            assert(prefix[i] == codes[i]);
        }
        lemma_statuses_after_present(statuses, prefix, added);
        assert(has_status(statuses, codes[codes.len() - 1]));
    }
}

/// Law: running the status pass a second time over the same records adds
/// nothing.
pub proof fn lemma_statuses_after_twice(
    statuses: Seq<NctsStatus>,
    codes: Seq<Seq<char>>,
    added: spec_fn(Seq<char>) -> NctsStatus,
)
    requires
        forall|n: Seq<char>| #[trigger] added(n).status@ == n,
    ensures
        statuses_after(statuses_after(statuses, codes, added), codes, added) == statuses_after(
            statuses,
            codes,
            added,
        ),
{
    lemma_statuses_after_covers(statuses, codes, added);
    lemma_statuses_after_present(statuses_after(statuses, codes, added), codes, added);
}

} // verus!
