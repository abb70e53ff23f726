use vstd::prelude::*;

use crate::text::text_is;

verus! {

/// An entry of a TOML document: `key` of the table `[table]`, with its text
/// when the value is a string.
#[derive(Clone, Debug, PartialEq, Eq)]
pub struct TomlEntry {
    pub table: String,
    pub key: String,
    pub text: Option<String>,
}

/// The plain value of an entry.
pub open spec fn entry_view(e: TomlEntry) -> (Seq<char>, Seq<char>, Option<Seq<char>>) {
    (
        e.table@,
        e.key@,
        match e.text {
            Some(t) => Some(t@),
            None => None,
        },
    )
}

/// The plain values of a sequence of entries.
pub open spec fn entries_view(v: Seq<TomlEntry>) -> Seq<(Seq<char>, Seq<char>, Option<Seq<char>>)> {
    v.map_values(|e: TomlEntry| entry_view(e))
}

/// The entries of the tables of the TOML document that the `toml` crate reads
/// from `content` (table name, key, and text of string values), or `None`
/// where it does not read a document.
pub uninterp spec fn toml_table_entries(content: Seq<char>) -> Option<
    Seq<(Seq<char>, Seq<char>, Option<Seq<char>>)>,
>;

/// Whether no two entries have the same table and key.
pub open spec fn entries_unique(entries: Seq<(Seq<char>, Seq<char>, Option<Seq<char>>)>) -> bool {
    forall|i: int, j: int|
        0 <= i < entries.len() && 0 <= j < entries.len() && i != j ==> (#[trigger] entries[i].0,
        entries[i].1) != (#[trigger] entries[j].0, entries[j].1)
}

/// Calls `toml::Value::from_str` (through `str::parse`), which reads a whole
/// document, and lists the entries of its tables: each `key = value` of each
/// top-level table, with the text of the value when it is a string
/// (`Value::as_table`, `Value::as_str`); a top-level value that is not a
/// table gives no entry, as indexing into it finds nothing. Trusted: the list is the one that
/// the toml crate gives for the text (named `toml_table_entries`), and a
/// table, being a map, holds each key once.
#[verifier::external_body]
fn parse_toml_entries(content: &str) -> (res: Option<Vec<TomlEntry>>)
    ensures
        res is None <==> toml_table_entries(content@) is None,
        res matches Some(v) ==> entries_view(v@) == toml_table_entries(content@)->0,
        res matches Some(v) ==> entries_unique(entries_view(v@)),
{
    let doc = match content.parse::<toml::Value>() {
        Ok(doc) => doc,
        Err(_) => return None,
    };
    let mut entries = Vec::new();
    for (table, section) in doc.as_table().into_iter().flatten() {
        for (key, value) in section.as_table().into_iter().flatten() {
            let text = match value.as_str() {
                Some(t) => Some(t.to_string()),
                None => None,
            };
            entries.push(TomlEntry { table: table.clone(), key: key.clone(), text });
        }
    }
    Some(entries)
}

/// Why the configuration cannot be read. The loader cannot start without
/// its settings: the program fails with this error.
#[derive(Clone, Copy, Debug, PartialEq, Eq)]
pub enum ConfigError {
    /// The configuration text is not a TOML document.
    Unreadable,
    /// The table or the key is not in the document.
    MissingEntry,
    /// The entry is not a string.
    NotText,
}

/// The database server settings of the `[serverDetails]` table.
#[derive(Clone, Debug, PartialEq, Eq)]
pub struct ConnectionConfig {
    pub server: String,
    pub port: String,
    pub user: String,
    pub password: String,
    pub database: String,
}

/// The SQL Server connection address of the settings.
pub open spec fn connection_address(c: ConnectionConfig) -> Seq<char> {
    "jdbc:sqlserver://"@ + c.server@ + ":"@ + c.port@ + ";User="@ + c.user@ + ";Password="@
        + c.password@ + ";Database="@ + c.database@
}

/// What the configuration holds at `[table] key`: its text, or why there
/// is none.
pub open spec fn config_text(
    entries: Seq<(Seq<char>, Seq<char>, Option<Seq<char>>)>,
    table: Seq<char>,
    key: Seq<char>,
) -> Result<Seq<char>, ConfigError> {
    if exists|i: int| 0 <= i < entries.len() && entries[i].0 == table && entries[i].1 == key {
        let i = choose|i: int| 0 <= i < entries.len() && entries[i].0 == table && entries[i].1 == key;
        match entries[i].2 {
            Some(t) => Ok(t),
            None => Err(ConfigError::NotText),
        }
    } else {
        Err(ConfigError::MissingEntry)
    }
}

/// The string at `[table] key` of the entries.
fn config_entry(entries: &Vec<TomlEntry>, table: &str, key: &str) -> (res: Result<
    String,
    ConfigError,
>)
    requires
        entries_unique(entries_view(entries@)),
    ensures
        match config_text(entries_view(entries@), table@, key@) {
            Ok(t) => res matches Ok(s) && s@ == t,
            Err(e) => res == Err::<String, ConfigError>(e),
        },
{
    let ghost view = entries_view(entries@);
    let mut i: usize = 0;
    while i < entries.len()
        invariant
            i <= entries.len(),
            view == entries_view(entries@),
            entries_unique(view),
            forall|j: int| 0 <= j < i ==> !(view[j].0 == table@ && view[j].1 == key@),
        decreases entries.len() - i,
    {
        if text_is(&entries[i].table, table) && text_is(&entries[i].key, key) {
            proof {
                assert(view[i as int] == entry_view(entries@[i as int]));
                let k = choose|k: int| 0 <= k < view.len() && view[k].0 == table@ && view[k].1 == key@;
                assert(k == i) by {
                    if k != i {
                        assert((view[k].0, view[k].1) != (view[i as int].0, view[i as int].1));
                    }
                }
            }
            return match &entries[i].text {
                Some(t) => Ok(t.clone()),
                None => Err(ConfigError::NotText),
            };
        }
        proof {
            assert(view[i as int] == entry_view(entries@[i as int]));
        }
        i = i + 1;
    }
    Err(ConfigError::MissingEntry)
}

/// The report file path of the configuration, `[file] path`.
pub open spec fn configured_path(content: Seq<char>) -> Result<Seq<char>, ConfigError> {
    match toml_table_entries(content) {
        None => Err(ConfigError::Unreadable),
        Some(entries) => config_text(entries, "file"@, "path"@),
    }
}

/// Reads the report file path, `[file] path`, from the configuration text.
/// An error means the program cannot go on: it fails with it.
pub fn report_path(content: &str) -> (res: Result<String, ConfigError>)
    ensures
        match configured_path(content@) {
            Ok(t) => res matches Ok(s) && s@ == t,
            Err(e) => res == Err::<String, ConfigError>(e),
        },
{
    match parse_toml_entries(content) {
        None => Err(ConfigError::Unreadable),
        Some(entries) => config_entry(&entries, "file", "path"),
    }
}

/// The server settings of the configuration: `server`, `port`, `user`,
/// `password` and `database` of `[serverDetails]`, read in this order; the
/// first one that is missing or not a string decides the error.
pub open spec fn configured_server(content: Seq<char>) -> Result<
    (Seq<char>, Seq<char>, Seq<char>, Seq<char>, Seq<char>),
    ConfigError,
> {
    match toml_table_entries(content) {
        None => Err(ConfigError::Unreadable),
        Some(e) => {
            let t = "serverDetails"@;
            match (
                config_text(e, t, "server"@),
                config_text(e, t, "port"@),
                config_text(e, t, "user"@),
                config_text(e, t, "password"@),
                config_text(e, t, "database"@),
            ) {
                (Err(x), _, _, _, _) => Err(x),
                (Ok(_), Err(x), _, _, _) => Err(x),
                (Ok(_), Ok(_), Err(x), _, _) => Err(x),
                (Ok(_), Ok(_), Ok(_), Err(x), _) => Err(x),
                (Ok(_), Ok(_), Ok(_), Ok(_), Err(x)) => Err(x),
                (Ok(a), Ok(b), Ok(c), Ok(d), Ok(f)) => Ok((a, b, c, d, f)),
            }
        },
    }
}

impl ConnectionConfig {
    /// Reads the server settings (`server`, `port`, `user`, `password`,
    /// `database` of the `[serverDetails]` table) from the configuration text.
    /// An error means the database cannot be reached: the program fails with
    /// it rather than going on without settings.
    pub fn new(content: &str) -> (res: Result<ConnectionConfig, ConfigError>)
        ensures
            match configured_server(content@) {
                Ok((a, b, c, d, f)) => res matches Ok(cfg) && cfg.server@ == a && cfg.port@ == b
                    && cfg.user@ == c && cfg.password@ == d && cfg.database@ == f,
                Err(e) => res == Err::<ConnectionConfig, ConfigError>(e),
            },
    {
        let entries = match parse_toml_entries(content) {
            None => {
                return Err(ConfigError::Unreadable);
            },
            Some(entries) => entries,
        };
        let server = match config_entry(&entries, "serverDetails", "server") {
            Ok(v) => v,
            Err(e) => {
                return Err(e);
            },
        };
        let port = match config_entry(&entries, "serverDetails", "port") {
            Ok(v) => v,
            Err(e) => {
                return Err(e);
            },
        };
        let user = match config_entry(&entries, "serverDetails", "user") {
            Ok(v) => v,
            Err(e) => {
                return Err(e);
            },
        };
        let password = match config_entry(&entries, "serverDetails", "password") {
            Ok(v) => v,
            Err(e) => {
                return Err(e);
            },
        };
        let database = match config_entry(&entries, "serverDetails", "database") {
            Ok(v) => v,
            Err(e) => {
                return Err(e);
            },
        };
        Ok(ConnectionConfig { server, port, user, password, database })
    }

    /// The SQL Server connection address built from the settings.
    pub fn connection_url(&self) -> (res: String)
        ensures
            res@ == connection_address(*self),
    {
        let mut url = String::from_str("jdbc:sqlserver://");
        url.append(self.server.as_str());
        url.append(":");
        url.append(self.port.as_str());
        url.append(";User=");
        url.append(self.user.as_str());
        url.append(";Password=");
        url.append(self.password.as_str());
        url.append(";Database=");
        url.append(self.database.as_str());
        url
    }
}

} // verus!
