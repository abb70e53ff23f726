use chrono::Datelike;
use vstd::prelude::*;

use crate::text::{zero_padded, zero_padded_text};

verus! {

/// The calendar date (year, month, day) that chrono's `NaiveDate::parse_from_str`
/// reads from `text` under `format`, or `None` where it reports an error.
pub uninterp spec fn chrono_parsed_date(text: Seq<char>, format: Seq<char>) -> Option<(i32, u32, u32)>;

/// Calls `chrono::NaiveDate::parse_from_str(text, format)` and hands back the
/// year, month and day of the date read. Trusted: the result is the one that
/// chrono computes from the two arguments (named `chrono_parsed_date`), and a
/// date of chrono has a month in 1..=12 and a day in 1..=31.
#[verifier::external_body]
fn parse_date_parts(text: &str, format: &str) -> (res: Option<(i32, u32, u32)>)
    ensures
        res == chrono_parsed_date(text@, format@),
        res matches Some((y, m, d)) ==> 1 <= m <= 12 && 1 <= d <= 31,
{
    match chrono::NaiveDate::parse_from_str(text, format) {
        Ok(date) => Some((date.year(), date.month(), date.day())),
        Err(_) => None,
    }
}

/// The text of a year as chrono writes it in a date: four digits for the
/// years 0 to 9999, otherwise a sign followed by at least four digits.
pub open spec fn year_text(y: int) -> Seq<char> {
    if 0 <= y <= 9999 {
        zero_padded(y as nat, 4)
    } else if y > 0 {
        seq!['+'] + zero_padded(y as nat, 4)
    } else {
        seq!['-'] + zero_padded((-y) as nat, 4)
    }
}

/// The ISO 8601 text `YYYY-MM-DD` of a date, as chrono's `NaiveDate` displays it.
pub open spec fn iso_date(y: int, m: nat, d: nat) -> Seq<char> {
    year_text(y) + seq!['-'] + zero_padded(m, 2) + seq!['-'] + zero_padded(d, 2)
}

/// The format of the declaration date in the transit report: day/month/year.
pub open spec fn report_date_format() -> Seq<char> {
    "%d/%m/%Y"@
}

/// Writes a date as `YYYY-MM-DD`, the way the dossier table stores it.
pub fn iso_date_text(y: i32, m: u32, d: u32) -> (res: String)
    ensures
        res@ == iso_date(y as int, m as nat, d as nat),
{
    let mut res = if 0 <= y && y <= 9999 {
        zero_padded_text(y as u32, 4)
    } else if y > 0 {
        let mut t = String::from_str("+");
        t.append(zero_padded_text(y as u32, 4).as_str());
        t
    } else {
        let magnitude: u32 = (0i64 - (y as i64)) as u32;
        let mut t = String::from_str("-");
        t.append(zero_padded_text(magnitude, 4).as_str());
        t
    };
    proof {
        reveal_strlit("+");
        reveal_strlit("-");
    }
    res.append("-");
    res.append(zero_padded_text(m, 2).as_str());
    res.append("-");
    res.append(zero_padded_text(d, 2).as_str());
    res
}

/// Reads the declaration date of a report line (day/month/year) and writes it
/// as `YYYY-MM-DD`; `None` where chrono does not read a date from it.
pub fn declaration_date_iso(text: &str) -> (res: Option<String>)
    ensures
        match chrono_parsed_date(text@, report_date_format()) {
            Some((y, m, d)) => res matches Some(s) && s@ == iso_date(y as int, m as nat, d as nat),
            None => res is None,
        },
{
    match parse_date_parts(text, "%d/%m/%Y") {
        Some((y, m, d)) => Some(iso_date_text(y, m, d)),
        None => None,
    }
}

} // verus!
