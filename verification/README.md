# tatg_parser

Loads the NCTS transit report (a `;`-separated CSV export) into the customs
database: transit declarations ("TA") and transit guarantees ("TG") become
dossier and report rows, and existing dossiers are removed or given a new
status when the report says so.

- `src/` is the verified library (Verus): cutting the report's bytes into
  lines and cells (through the csv crate), which report lines each pass takes,
  deduplication and grouping by MRN, the rows derived from a record (dossier,
  report row, new customer or status), the changes a status update asks for,
  the date and amount texts, and the configuration and connection address.
- `app/` is the program around it: reading the bytes of `config.toml` and of
  the report,
  serde and the rbatis database layer, the adding of amounts as `f64`.
- `tests/` runs the library on concrete reports and tables.
