//! Core rules of the NCTS transit report loader: which report lines are
//! taken, how lines are grouped and deduplicated by MRN, and how database
//! rows are derived from report records.

pub mod text;
pub mod report;
pub mod keyed;
pub mod dates;
pub mod tables;
pub mod ta_monitoring;
pub mod tg_monitoring;
pub mod ta_rapport;
pub mod tg_rapport;
pub mod connection;
pub mod export_monitoring;
