use tatg_parser::connection::{report_path, ConfigError, ConnectionConfig};
use tatg_parser::dates::{declaration_date_iso, iso_date_text};
use tatg_parser::keyed::{first_selected_per_key, group_by_key};
use tatg_parser::ta_monitoring::{
    group_by_mrn, is_ta_load_row, select_ta_load_rows, ta_status_row_readable, TARecords,
};
use tatg_parser::ta_rapport::{TaRapport, TaRapportConnection, TaRapportView};
use tatg_parser::tables::{
    find_klant, find_land, find_ncts_status, klant_to_insert, ncts_status_to_insert, Dossier,
    Klant, Land, LoadError, NctsStatus, RapportChange,
};
use tatg_parser::text::{cut_to_two_decimals, decimal_comma_to_point, decimal_text, text_is, zero_padded_text};
use tatg_parser::report::report_rows;
use tatg_parser::tg_monitoring::{
    is_tg_load_row, mrn_cell_texts, mrn_column, record_mrn_texts, select_tg_load_rows,
    tg_status_row_readable, TGRecords,
};
use tatg_parser::tg_rapport::{TgRapport, TgRapportConnection, TgRapportView};

fn strings(v: &[&str]) -> Vec<String> {
    v.iter().map(|s| s.to_string()).collect()
}

/// A report line of 25 columns with the given type, MRN and status columns.
fn line(kind: &str, mrn: &str, status23: &str, status24: &str) -> Vec<String> {
    let mut row = vec![String::new(); 25];
    row[1] = kind.to_string();
    row[3] = mrn.to_string();
    row[23] = status23.to_string();
    row[24] = status24.to_string();
    row
}

fn ta_record(klant: &str, mrn: &str, date: &str, land: &str, status: &str) -> TARecords {
    TARecords {
        klant: klant.to_string(),
        type_of_declaration: String::new(),
        declaration_number: String::new(),
        mrn: mrn.to_string(),
        declaratie_datum: date.to_string(),
        hts_code: String::new(),
        quantity: String::new(),
        gross_weight: String::new(),
        net_weight: String::new(),
        unit_value: String::new(),
        total_line_value: String::new(),
        exchange_rate: String::new(),
        customs_duty: String::new(),
        vat_amt: String::new(),
        controllled_dual_goods_value: String::new(),
        eccn_classification: String::new(),
        land: land.to_string(),
        ship_address: String::new(),
        ship_to_country: String::new(),
        pid_number: String::new(),
        t1_cleared: String::new(),
        t1_clearance_date: String::new(),
        t1_office_clearance: String::new(),
        ncts_status: status.to_string(),
    }
}

fn tg_record(klant: &str, mrn: &str, date: &str, status: &str) -> TGRecords {
    TGRecords {
        klant: klant.to_string(),
        type_of_declaration: String::new(),
        declaration_number: String::new(),
        mrn: mrn.to_string(),
        declaratie_datum: date.to_string(),
        hts_code: String::new(),
        quantity: String::new(),
        gross_weight: String::new(),
        net_weight: String::new(),
        unit_value: String::new(),
        total_line_value: String::new(),
        exchange_rate: String::new(),
        customs_duty: String::new(),
        vat_amt: String::new(),
        controllled_dual_goods_value: String::new(),
        eccn_classification: String::new(),
        country_dest: String::new(),
        ship_address: String::new(),
        ship_to_country: String::new(),
        pid_number: String::new(),
        t1_cleared: String::new(),
        t1_clearance_date: String::new(),
        t1_office_clearance: String::new(),
        ncts_status: status.to_string(),
    }
}

fn klant(id: Option<u64>, name: &str) -> Klant {
    Klant { id, klantnaam: name.to_string(), referentie: None }
}

fn status(id: Option<i64>, code: &str) -> NctsStatus {
    NctsStatus { id, status: code.to_string() }
}

fn ta_view(mrn: &str, dossier_id: i64, status_id: i64) -> TaRapportView {
    TaRapportView {
        id: 1,
        declaratie_datum: None,
        mrn: mrn.to_string(),
        referentie: None,
        land_code_twee: "BE".to_string(),
        risico: None,
        vervoerder: None,
        opt_in_out: None,
        status: "29".to_string(),
        documents: 0,
        opmerking: None,
        aanvullend: None,
        klant_id: 1,
        dossier_id,
        fk_ncts_status_id: status_id,
    }
}

fn tg_view(mrn: &str, dossier_id: i64, status_id: i64) -> TgRapportView {
    TgRapportView {
        id: 1,
        declaratie_datum: None,
        mrn: mrn.to_string(),
        referentie: None,
        status: "43".to_string(),
        notitie: None,
        klant_id: 1,
        dossier_id,
        fk_ncts_status_id: status_id,
    }
}

#[test]
fn text_is_compares_whole_text() {
    assert!(text_is(&"TA".to_string(), "TA"));
    assert!(!text_is(&"TA ".to_string(), "TA"));
    assert!(!text_is(&"T".to_string(), "TA"));
}

#[test]
fn decimal_comma_becomes_point() {
    assert_eq!(decimal_comma_to_point("12,50"), "12.50");
    assert_eq!(decimal_comma_to_point("1,2,3"), "1.2.3");
    assert_eq!(decimal_comma_to_point("7"), "7");
    assert_eq!(decimal_comma_to_point(""), "");
}

#[test]
fn risk_text_is_cut_two_digits_after_point() {
    assert_eq!(cut_to_two_decimals("12.3456"), "12.34");
    assert_eq!(cut_to_two_decimals("12.345"), "12.34");
    assert_eq!(cut_to_two_decimals("12.34"), "12.34");
    assert_eq!(cut_to_two_decimals("12.3"), "12.3");
    assert_eq!(cut_to_two_decimals("12"), "12");
    assert_eq!(cut_to_two_decimals("0.30000000000000004"), "0.30");
    // cutting twice is cutting once
    let once = cut_to_two_decimals("3.14159");
    assert_eq!(cut_to_two_decimals(&once), once);
}

#[test]
fn risk_text_matches_float_sum_text() {
    let customs: f64 = decimal_comma_to_point("10,255").parse().unwrap();
    let vat: f64 = decimal_comma_to_point("2,1").parse().unwrap();
    let sum = (customs + vat).to_string();
    assert_eq!(cut_to_two_decimals(&sum), &sum[..sum.find('.').unwrap() + 3]);
}

#[test]
fn decimal_and_padding() {
    assert_eq!(decimal_text(0), "0");
    assert_eq!(decimal_text(4294967295), "4294967295");
    assert_eq!(zero_padded_text(7, 2), "07");
    assert_eq!(zero_padded_text(2024, 4), "2024");
    assert_eq!(zero_padded_text(12345, 4), "12345");
    assert_eq!(zero_padded_text(5, 0), "5");
}

#[test]
fn iso_date_like_chrono() {
    assert_eq!(iso_date_text(2024, 3, 5), "2024-03-05");
    assert_eq!(iso_date_text(987, 12, 31), "0987-12-31");
    assert_eq!(iso_date_text(12345, 1, 1), "+12345-01-01");
    assert_eq!(iso_date_text(-5, 1, 1), "-0005-01-01");
    assert_eq!(iso_date_text(i32::MIN, 1, 1), "-2147483648-01-01");
    for (y, m, d) in [(2024, 2, 29), (1, 1, 1), (9999, 12, 31), (-262143, 6, 15), (262142, 7, 9)] {
        let date = chrono::NaiveDate::from_ymd_opt(y, m, d).unwrap();
        assert_eq!(iso_date_text(y, m, d), date.to_string());
    }
}

#[test]
fn declaration_date_reads_day_month_year() {
    assert_eq!(declaration_date_iso("15/03/2024"), Some("2024-03-15".to_string()));
    assert_eq!(declaration_date_iso("1/2/2023"), Some("2023-02-01".to_string()));
    assert_eq!(declaration_date_iso("31/02/2024"), None);
    assert_eq!(declaration_date_iso("2024-03-15"), None);
    assert_eq!(declaration_date_iso(""), None);
}

#[test]
fn first_selected_per_key_keeps_first_occurrence() {
    let keys = strings(&["a", "b", "a", "c", "b", "d"]);
    let sel = vec![true, false, true, true, true, false];
    assert_eq!(first_selected_per_key(&keys, &sel), vec![0, 3, 4]);
    assert_eq!(first_selected_per_key(&vec![], &vec![]), Vec::<usize>::new());
}

#[test]
fn group_by_key_partitions_positions() {
    let keys = strings(&["m1", "m2", "m1", "m3", "m2", "m1"]);
    let groups = group_by_key(&keys);
    assert_eq!(groups, vec![vec![0, 2, 5], vec![1, 4], vec![3]]);
    let mut all: Vec<usize> = groups.concat();
    all.sort();
    assert_eq!(all, vec![0, 1, 2, 3, 4, 5]);
}

#[test]
fn ta_load_rows_follow_status_and_type() {
    let rows = vec![
        line("Type of declaration", "MRN Number", "NCTS status", "x"),
        line("TA", "M1", "29", ""),
        line("TA", "M2", "", "140"),
        line("TG", "M3", "29", ""),
        line("TA", "M4", "30", "7"),
        line("TA", "M1", "6", ""),
        line("TA", "M5", "x", "141"),
    ];
    assert!(rows.iter().all(|r| ta_status_row_readable(r)));
    assert_eq!(select_ta_load_rows(&rows), vec![1, 2, 5, 6]);
}

#[test]
fn ta_short_line_readable_only_with_first_code() {
    let mut short = vec![String::new(); 24];
    short[1] = "TA".to_string();
    short[23] = "29".to_string();
    assert!(ta_status_row_readable(&short));
    assert!(is_ta_load_row(&short));
    short[23] = "140".to_string();
    assert!(!ta_status_row_readable(&short));
    assert!(!ta_status_row_readable(&vec![String::new(); 10]));
}

#[test]
fn ta_records_group_by_mrn() {
    let records = vec![
        ta_record("K", "M1", "", "", ""),
        ta_record("K", "M2", "", "", ""),
        ta_record("K", "M1", "", "", ""),
    ];
    assert_eq!(group_by_mrn(&records), vec![vec![0, 2], vec![1]]);
}

/// The column-name line of the report, with "MRN Number" in column 3.
fn header() -> Vec<String> {
    line("Type of declaration", "MRN Number", "NCTS status", "NCTS status 2")
}

#[test]
fn report_bytes_are_cut_into_lines_and_cells() {
    let bytes = b"BU;Type;Nr;MRN Number\nAcme;TA;1;24BE01\n\"a;b\";TG\n";
    let rows = report_rows(bytes).unwrap();
    assert_eq!(
        rows,
        vec![
            strings(&["BU", "Type", "Nr", "MRN Number"]),
            strings(&["Acme", "TA", "1", "24BE01"]),
            strings(&["a;b", "TG"]),
        ]
    );
    assert_eq!(report_rows(b""), Some(vec![]));
    assert_eq!(report_rows(&[0xff, 0xfe, b';', b'x']), None);
}

#[test]
fn record_mrn_follows_header() {
    assert_eq!(mrn_column(&header()), Some(3));
    assert_eq!(mrn_column(&strings(&["a", "b"])), None);
    let mut moved = vec![String::new(); 25];
    moved[5] = "MRN Number".to_string();
    let mut row = line("TG", "C3", "43", "");
    row[5] = "C5".to_string();
    assert_eq!(record_mrn_texts(&vec![moved.clone(), row.clone()]), strings(&["MRN Number", "C5"]));
    assert_eq!(record_mrn_texts(&vec![header(), row]), strings(&["MRN Number", "C3"]));
    assert_eq!(record_mrn_texts(&vec![]), Vec::<String>::new());
}

#[test]
fn tg_load_dedup_compares_column_3_with_record_mrn() {
    // MRN heading in column 5: a line taken is remembered by column 5 and
    // later lines are compared by their column 3.
    let mut head = vec![String::new(); 25];
    head[5] = "MRN Number".to_string();
    let mut a = line("TG", "X", "43", "");
    a[5] = "Y".to_string();
    let mut b = line("TG", "Y", "43", "");
    b[5] = "Z".to_string();
    let mut c = line("TG", "X", "43", "");
    c[5] = "W".to_string();
    assert_eq!(select_tg_load_rows(&vec![head, a, b, c]), vec![1, 3]);
}

#[test]
fn tg_load_rows_deduplicate_by_mrn() {
    let rows = vec![
        header(),
        line("TG", "M1", "43", ""),
        line("TG", "M2", "", "8"),
        line("TG", "M1", "58", ""),
        line("TA", "M3", "60", ""),
        line("TG", "M4", "1", "2"),
        line("TG", "M5", "60", ""),
    ];
    assert!(rows.iter().all(|r| tg_status_row_readable(r)));
    assert_eq!(select_tg_load_rows(&rows), vec![1, 2, 6]);
    assert_eq!(mrn_cell_texts(&vec![vec!["a".to_string()]]), vec![String::new()]);
}

#[test]
fn tg_short_line_readable_only_with_first_code() {
    let mut short = vec![String::new(); 24];
    short[1] = "TG".to_string();
    short[23] = "43".to_string();
    assert!(tg_status_row_readable(&short));
    assert!(is_tg_load_row(&short));
    short[23] = "8".to_string();
    assert!(!tg_status_row_readable(&short));
}

#[test]
fn lookups_find_first_match() {
    let klants = vec![klant(Some(1), "A"), klant(Some(2), "B"), klant(Some(3), "A")];
    assert_eq!(find_klant(&klants, &"A".to_string()), Some(0));
    assert_eq!(find_klant(&klants, &"B".to_string()), Some(1));
    assert_eq!(find_klant(&klants, &"C".to_string()), None);
    let lands = vec![Land { id: Some(5), land_code_twee: "BE".to_string() }];
    assert_eq!(find_land(&lands, &"BE".to_string()), Some(0));
    assert_eq!(find_land(&lands, &"NL".to_string()), None);
    let statuses = vec![status(Some(1), "29"), status(Some(2), "6")];
    assert_eq!(find_ncts_status(&statuses, &"6".to_string()), Some(1));
    assert_eq!(find_ncts_status(&statuses, &"7".to_string()), None);
}

#[test]
fn customer_and_status_inserts_are_idempotent() {
    let mut klants = vec![klant(Some(1), "A")];
    assert_eq!(klant_to_insert(&klants, &"A".to_string()), None);
    let new = klant_to_insert(&klants, &"B".to_string()).unwrap();
    assert_eq!(new, Klant { id: None, klantnaam: "B".to_string(), referentie: None });
    klants.push(new);
    assert_eq!(klant_to_insert(&klants, &"B".to_string()), None);

    let mut statuses = vec![status(Some(1), "29")];
    assert_eq!(ncts_status_to_insert(&statuses, &"29".to_string()), None);
    let row = ncts_status_to_insert(&statuses, &"6".to_string()).unwrap();
    assert_eq!(row, NctsStatus { id: None, status: "6".to_string() });
    statuses.push(row);
    assert_eq!(ncts_status_to_insert(&statuses, &"6".to_string()), None);
}

#[test]
fn ta_report_rows_and_classification() {
    let rows = vec![line("TA", "M1", "", ""), line("TG", "M2", "", ""), line("TA", "M3", "", "")];
    assert_eq!(TaRapportConnection::select_ta_report_rows(&rows), vec![0, 2]);

    let records = vec![
        ta_record("K", "M1", "", "", "99"),
        ta_record("K", "M1", "", "", "29"),
        ta_record("K", "M2", "", "", "29"),
        ta_record("K", "M1", "", "", "98"),
        ta_record("K", "M3", "", "", "29"),
        ta_record("K", "M2", "", "", "29"),
    ];
    let views = vec![ta_view("M1", 10, 1), ta_view("M2", 20, 1)];
    let statuses = vec![status(Some(1), "29")];
    let (removal, update) = TaRapportConnection::classify_records(&records, &views, &statuses);
    assert_eq!(removal, vec![0]);
    assert_eq!(update, vec![1, 2]);
}

#[test]
fn ta_prepare_dossier_and_errors() {
    let klants = vec![klant(Some(7), "Acme"), klant(None, "NoId")];
    let lands = vec![Land { id: Some(3), land_code_twee: "BE".to_string() }];
    let statuses = vec![status(Some(4), "29"), status(None, "6")];
    let item = ta_record("Acme", "24BE0001", "15/03/2024", "BE", "29");
    let plan = TaRapportConnection::prepare_dossier(&item, &klants, &lands, &statuses).unwrap();
    assert_eq!(
        plan.dossier,
        Dossier {
            id: None,
            mrn: "24BE0001".to_string(),
            fk_klant_id: 7,
            fk_landscode_id: Some(3),
            declaratie_datum: "2024-03-15".to_string(),
            manually_created: 0,
        }
    );
    assert_eq!(plan.ncts_status_id, Some(4));
    let bad = |k: &str, d: &str, l: &str, s: &str| {
        TaRapportConnection::prepare_dossier(&ta_record(k, "M", d, l, s), &klants, &lands, &statuses)
    };
    assert_eq!(bad("Other", "x", "XX", "zz"), Err(LoadError::UnknownKlant));
    assert_eq!(bad("Acme", "x", "XX", "zz"), Err(LoadError::UnknownLand));
    assert_eq!(bad("Acme", "x", "BE", "zz"), Err(LoadError::UnknownStatus));
    assert_eq!(bad("Acme", "x", "BE", "29"), Err(LoadError::InvalidDate));
    assert_eq!(bad("NoId", "01/01/2024", "BE", "29"), Err(LoadError::KlantWithoutId));
    assert_eq!(bad("Acme", "01/01/2024", "BE", "6").unwrap().ncts_status_id, None);
}

#[test]
fn ta_rapport_for_cuts_risk() {
    let r = TaRapportConnection::rapport_for(12, Some(4), "25.4567").unwrap();
    assert_eq!(
        r,
        TaRapport {
            id: None,
            fk_dossier_id: 12,
            opmerking: None,
            fk_ncts_status_id: 4,
            aanvullend: None,
            risico: Some("25.45".to_string()),
            opt_in_out: None,
            vervoerder: None,
        }
    );
    assert_eq!(TaRapportConnection::rapport_for(12, None, "1"), Err(LoadError::StatusWithoutId));
}

#[test]
fn ta_update_plans() {
    let one = vec![ta_view("M", 10, 1)];
    let two = vec![ta_view("M", 10, 1), ta_view("M", 11, 1)];
    let st = vec![status(Some(2), "6")];
    let same = vec![status(Some(1), "29")];
    let no_id = vec![status(None, "6")];
    assert_eq!(TaRapportConnection::plan_update(&one, &vec![]), Err(LoadError::NoStatusRow));
    assert_eq!(
        TaRapportConnection::plan_update(&two, &st),
        Ok(RapportChange::RemoveDossier { dossier_id: 11 })
    );
    assert_eq!(
        TaRapportConnection::plan_update(&one, &st),
        Ok(RapportChange::SetStatus { dossier_id: 10, ncts_status_id: 2 })
    );
    assert_eq!(TaRapportConnection::plan_update(&one, &same), Ok(RapportChange::Unchanged));
    assert_eq!(TaRapportConnection::plan_update(&one, &no_id), Err(LoadError::StatusWithoutId));
    assert_eq!(TaRapportConnection::plan_update(&two, &no_id), Ok(RapportChange::RemoveDossier { dossier_id: 11 }));
    assert_eq!(TaRapportConnection::plan_update(&vec![], &st), Ok(RapportChange::Unchanged));
    assert_eq!(TaRapportConnection::removal_dossier(&two), Some(10));
    assert_eq!(TaRapportConnection::removal_dossier(&vec![]), None);
}

#[test]
fn tg_classification() {
    let rows = vec![
        header(),
        line("TG", "M1", "99", ""),
        line("TG", "M1", "43", ""),
        line("TG", "M2", "43", ""),
        line("TG", "M2", "58", ""),
        line("TA", "M1", "99", ""),
        line("TG", "M9", "43", ""),
        line("TG", "M2", "12", "8"),
    ];
    let views = vec![tg_view("M1", 1, 1), tg_view("M2", 2, 1)];
    let statuses = vec![status(Some(1), "43"), status(Some(2), "58"), status(Some(3), "12")];
    assert!(rows.iter().all(|r| TgRapportConnection::check_row_readable(r, &views, &statuses)));
    let (removal, update) = TgRapportConnection::classify_report_rows(&rows, &views, &statuses);
    assert_eq!(removal, vec![1]);
    assert_eq!(update, vec![2, 3]);
}

#[test]
fn tg_check_readability() {
    let views = vec![tg_view("M1", 1, 1)];
    let statuses = vec![status(Some(1), "43")];
    let short = strings(&["a", "TG"]);
    assert!(TgRapportConnection::check_row_readable(&short, &vec![], &vec![]));
    assert!(!TgRapportConnection::check_row_readable(&short, &views, &vec![]));
    assert!(!TgRapportConnection::check_row_readable(&short, &vec![], &statuses));
    let mut mid = vec![String::new(); 24];
    mid[1] = "TG".to_string();
    mid[3] = "M1".to_string();
    mid[23] = "43".to_string();
    assert!(TgRapportConnection::check_row_readable(&mid, &views, &statuses));
    mid[23] = "x".to_string();
    let st_x = vec![status(Some(1), "x")];
    assert!(!TgRapportConnection::check_row_readable(&mid, &views, &st_x));
    assert!(TgRapportConnection::check_row_readable(&mid, &views, &statuses));
}

#[test]
fn tg_prepare_dossier_and_rapport() {
    let klants = vec![klant(Some(7), "Acme"), klant(None, "NoId")];
    let item = tg_record("Acme", "24BE0002", "01/12/2023", "43");
    let d = TgRapportConnection::prepare_dossier(&item, &klants).unwrap();
    assert_eq!(
        d,
        Dossier {
            id: None,
            mrn: "24BE0002".to_string(),
            fk_klant_id: 7,
            fk_landscode_id: None,
            declaratie_datum: "2023-12-01".to_string(),
            manually_created: 0,
        }
    );
    assert_eq!(
        TgRapportConnection::prepare_dossier(&tg_record("X", "M", "01/12/2023", "43"), &klants),
        Err(LoadError::UnknownKlant)
    );
    assert_eq!(
        TgRapportConnection::prepare_dossier(&tg_record("NoId", "M", "bad", "43"), &klants),
        Err(LoadError::KlantWithoutId)
    );
    assert_eq!(
        TgRapportConnection::prepare_dossier(&tg_record("Acme", "M", "bad", "43"), &klants),
        Err(LoadError::InvalidDate)
    );
    let statuses = vec![status(None, "8"), status(Some(5), "43")];
    assert_eq!(
        TgRapportConnection::rapport_for(9, &item, &statuses),
        Ok(TgRapport { id: None, fk_dossier_id: 9, fk_ncts_status_id: Some(5), notitie: None, referentie: None })
    );
    assert_eq!(
        TgRapportConnection::rapport_for(9, &tg_record("Acme", "M", "", "8"), &statuses),
        Ok(TgRapport { id: None, fk_dossier_id: 9, fk_ncts_status_id: None, notitie: None, referentie: None })
    );
    assert_eq!(
        TgRapportConnection::rapport_for(9, &tg_record("Acme", "M", "", "60"), &statuses),
        Err(LoadError::UnknownStatus)
    );
}

#[test]
fn tg_update_plans() {
    let one = vec![tg_view("M", 10, 1)];
    let two = vec![tg_view("M", 10, 1), tg_view("M", 11, 1)];
    assert_eq!(TgRapportConnection::plan_update(&one, &vec![]), Err(LoadError::NoStatusRow));
    assert_eq!(
        TgRapportConnection::plan_update(&vec![], &vec![status(Some(3), "8")]),
        Err(LoadError::NoViewRow)
    );
    assert_eq!(TgRapportConnection::plan_update(&vec![], &vec![]), Err(LoadError::NoViewRow));
    assert_eq!(
        TgRapportConnection::plan_update(&two, &vec![status(Some(3), "8")]),
        Ok(RapportChange::RemoveDossier { dossier_id: 11 })
    );
    assert_eq!(
        TgRapportConnection::plan_update(&one, &vec![status(Some(3), "8")]),
        Ok(RapportChange::SetStatus { dossier_id: 10, ncts_status_id: 3 })
    );
    assert_eq!(
        TgRapportConnection::plan_update(&one, &vec![status(Some(1), "43")]),
        Ok(RapportChange::Unchanged)
    );
    assert_eq!(
        TgRapportConnection::plan_update(&one, &vec![status(None, "8")]),
        Err(LoadError::StatusWithoutId)
    );
    assert_eq!(TgRapportConnection::removal_dossier(&one), Some(10));
}

const CONFIG: &str = r#"
[file]
path = "C:/customs/NCTSREPORT.csv"

[serverDetails]
server = "db.local"
port = "1433"
user = "loader"
password = "SECRET-REDACTED"
database = "customs"
"#;

#[test]
fn config_reads_server_details() {
    let config = ConnectionConfig::new(CONFIG).unwrap();
    assert_eq!(config.server, "db.local");
    assert_eq!(config.database, "customs");
    assert_eq!(
        config.connection_url(),
        "jdbc:sqlserver://db.local:1433;User=loader;Password=SECRET-REDACTED;Database=customs"
    );
    assert_eq!(report_path(CONFIG), Ok("C:/customs/NCTSREPORT.csv".to_string()));
}

#[test]
fn config_errors() {
    assert_eq!(ConnectionConfig::new("[serverDetails"), Err(ConfigError::Unreadable));
    assert_eq!(report_path("= nonsense"), Err(ConfigError::Unreadable));
    assert_eq!(ConnectionConfig::new("[serverDetails]\nserver = \"a\""), Err(ConfigError::MissingEntry));
    assert_eq!(report_path("[other]\npath = \"x\""), Err(ConfigError::MissingEntry));
    assert_eq!(report_path("[file]\npath = 3"), Err(ConfigError::NotText));
    assert_eq!(report_path("file = \"x\""), Err(ConfigError::MissingEntry));
    assert_eq!(report_path("[file.path]\nx = \"y\""), Err(ConfigError::NotText));
    assert_eq!(
        ConnectionConfig::new("[serverDetails]\nserver = 1\nport = \"2\""),
        Err(ConfigError::NotText)
    );
}

#[test]
fn other_declaration_types_do_not_change_ta_lines() {
    let rows = vec![line("TA", "M1", "", ""), line("TA", "M2", "", "")];
    let mut with_tg = rows.clone();
    with_tg.insert(1, line("TG", "M9", "", ""));
    let taken = |rs: &Vec<Vec<String>>| -> Vec<Vec<String>> {
        TaRapportConnection::select_ta_report_rows(rs).into_iter().map(|i| rs[i].clone()).collect()
    };
    assert_eq!(taken(&rows), taken(&with_tg));
}

#[test]
fn customer_pass_twice_adds_nothing() {
    let names = strings(&["A", "B", "A", "C"]);
    let mut table = vec![klant(Some(1), "B")];
    for _ in 0..2 {
        for n in &names {
            if let Some(k) = klant_to_insert(&table, n) {
                table.push(k);
            }
        }
    }
    let got: Vec<&str> = table.iter().map(|k| k.klantnaam.as_str()).collect();
    assert_eq!(got, vec!["B", "A", "C"]);
}

#[test]
fn ta_load_example_gives_dossier_and_report_row() {
    let klants = vec![klant(Some(1), "K")];
    let lands = vec![Land { id: Some(2), land_code_twee: "US".to_string() }];
    let statuses = vec![status(Some(3), "29")];
    let item = ta_record("K", "M1", "05/03/2024", "US", "29");
    let plan = TaRapportConnection::prepare_dossier(&item, &klants, &lands, &statuses).unwrap();
    assert_eq!(plan.dossier.declaratie_datum, "2024-03-05");
    assert_eq!(plan.dossier.fk_klant_id, 1);
    assert_eq!(plan.dossier.fk_landscode_id, Some(2));
    let customs: f64 = decimal_comma_to_point("1,5").parse().unwrap();
    let vat: f64 = decimal_comma_to_point("0,375").parse().unwrap();
    let r = TaRapportConnection::rapport_for(1, plan.ncts_status_id, &(customs + vat).to_string()).unwrap();
    assert_eq!(r.risico, Some("1.87".to_string()));
    assert_eq!(r.fk_ncts_status_id, 3);
    let r = TaRapportConnection::rapport_for(1, Some(3), &(10f64 + 5f64).to_string()).unwrap();
    assert_eq!(r.risico, Some("15".to_string()));
}

#[test]
fn removal_only_with_report_rows() {
    let rapport = TaRapportConnection::rapport_for(4, Some(1), "1").unwrap();
    assert_eq!(TaRapportConnection::removal_confirmed(4, &vec![rapport]), Some(4));
    assert_eq!(TaRapportConnection::removal_confirmed(4, &vec![]), None);
    let tg = TgRapport { id: Some(1), fk_dossier_id: 4, fk_ncts_status_id: None, notitie: None, referentie: None };
    assert_eq!(TgRapportConnection::removal_confirmed(4, &vec![tg]), Some(4));
    assert_eq!(TgRapportConnection::removal_confirmed(4, &vec![]), None);
}
