use vstd::prelude::*;

verus! {

/// A line of the export monitoring report, as read by its column headers.
#[allow(non_snake_case)]
#[derive(Clone, Debug, PartialEq, Eq)]
pub struct ExportRecords {
    pub klant: String,
    pub Type_of_declaration: String,
    pub declaration_number: String,
    pub mrn: String,
    pub datum: String,
    pub hts_code: String,
    pub quantity: String,
    pub gross_weight: String,
    pub net_weight: String,
    pub unit_value: String,
    pub unit_value_valuta: String,
    pub total_line_value: String,
    pub total_line_value_valuta: String,
    pub declared_customs_value: String,
    pub exchange_rate: String,
    pub controllled_dual_goods_value: String,
    pub eccn_classification: String,
    pub product_part_number: String,
    pub part_description: String,
    pub country_dest: String,
    pub country_origin: String,
    pub incoterm: String,
    pub incoterm_place: String,
    pub exporter_VAT_number: String,
    pub ship_address: String,
    pub ship_to_country: String,
    pub outbound_pid_number: String,
    pub po_number: String,
    pub EX_Closed_yes_no: String,
    pub ex_closure_date: String,
    pub customs_inspection: String,
    pub marks_numbers: String,
    pub declaration_status: String,
    pub invoice_number: String,
    pub filenumber: String,
    pub last_status_change: String,
    pub column1: String,
}

} // verus!
