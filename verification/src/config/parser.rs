//! Loading of the `[server]`, `[klippy]` and `[database]` blocks of the
//! configuration file.
use vstd::prelude::*;

use crate::text::{
    chars_of, is_prefix_of, parse_bool, parse_bool_spec, parse_decimal, parse_unsigned,
    split_at_char, split_spec, string_from_range, starts_with, trim, trim_spec,
};

verus! {

#[verifier::external_type_specification]
#[verifier::external_body]
pub struct ExIni(ini::Ini);

#[verifier::external_type_specification]
#[verifier::external_body]
pub struct ExIniParseError(ini::ParseError);

#[verifier::external_type_specification]
#[verifier::external_body]
pub struct ExIniError(ini::Error);

#[verifier::external_type_specification]
#[verifier::external_body]
pub struct ExIoError(std::io::Error);

/// The values of a parsed INI document, keyed by section (`None` for the
/// general section) and key.
pub type IniTable = Map<(Option<Seq<char>>, Seq<char>), Seq<char>>;

/// What a parsed `ini::Ini` document answers to `get_from(section, key)`:
/// the first value of `key` in the first section named `section`.
pub uninterp spec fn ini_entries(doc: ini::Ini) -> Map<(Option<Seq<char>>, Seq<char>), Seq<char>>;

/// The table that `ini::Ini::load_from_str` builds from a text, or `None`
/// where it reports a parse error.
pub uninterp spec fn ini_parsed_entries(content: Seq<char>) -> Option<
    Map<(Option<Seq<char>>, Seq<char>), Seq<char>>,
>;

/// The path that `std::path::PathBuf::push` makes of `base` and `rest`.
pub uninterp spec fn path_joined(base: Seq<char>, rest: Seq<char>) -> Seq<char>;

/// Parses INI text with `ini::Ini::load_from_str` (default parse options).
/// The contract claims only that the call depends on the text alone: it
/// succeeds exactly where `ini_parsed_entries` is defined, and the document
/// it returns answers lookups as that table does.
#[verifier::external_body]
fn parse_ini_document(content: &str) -> (r: Result<ini::Ini, ini::ParseError>)
    ensures
        r is Ok <==> ini_parsed_entries(content@) is Some,
        r matches Ok(doc) ==> ini_parsed_entries(content@) == Some(ini_entries(doc)),
{
    ini::Ini::load_from_str(content)
}

/// Looks a key up with `ini::Ini::get_from(Some(section), key)`, which in
/// the crate's source is `section(Some(section)).and_then(|p| p.get(key))`.
/// The contract claims that the answer is the document's table entry.
#[verifier::external_body]
fn ini_value(doc: &ini::Ini, section: &str, key: &str) -> (r: Option<String>)
    ensures
        r is Some <==> ini_entries(*doc).contains_key((Some(section@), key@)),
        r matches Some(v) ==> v@ == ini_entries(*doc)[(Some(section@), key@)],
{
    doc.get_from(Some(section), key).map(|v| v.to_string())
}

/// Wraps a parse error as `ini::Error::Parse`, the error that
/// `ini::Ini::load_from_file` reports for a file whose text does not parse.
#[verifier::external_body]
fn parse_error_as_ini_error(e: ini::ParseError) -> ini::Error {
    ini::Error::Parse(e)
}

/// Calls `dirs::home_dir`. It reads the environment and the user database,
/// so nothing ties its result to anything else; the crate's source returns
/// `None` rather than an empty path. A home directory whose path is not
/// valid UTF-8 is reported as `None`.
#[verifier::external_body]
fn home_dir() -> (r: Option<String>)
    ensures
        r matches Some(h) ==> h@.len() > 0,
{
    dirs::home_dir().and_then(|p| p.to_str().map(|s| s.to_string()))
}

/// Extends the path `base` with `rest` by `std::path::PathBuf::push`. The
/// documentation states that pushing an absolute path replaces the current
/// one; otherwise the result is named by `path_joined`.
#[verifier::external_body]
fn push_path(base: &str, rest: &str) -> (r: String)
    ensures
        r@ == path_joined(base@, rest@),
        rest@.len() > 0 && rest@[0] == '/' ==> r@ == rest@,
{
    let mut p = std::path::PathBuf::from(base);
    p.push(rest);
    p.to_string_lossy().into_owned()
}

#[derive(Debug, Clone)]
pub struct ServerConfig {
    pub host: String,
    pub port: u16,
    pub ssl_enabled: bool,
    pub max_upload_size_mb: u64,
    pub trusted_clients: Vec<String>,
    pub api_key: Option<String>,
}

#[derive(Debug, Clone)]
pub struct KlippyConfig {
    pub uds_path: String,
    pub api_timeout_secs: u64,
}

#[derive(Debug, Clone)]
pub struct DatabaseConfig {
    pub db_path: String,
}

#[derive(Debug, Clone)]
pub struct MoonrakerConfig {
    pub server: ServerConfig,
    pub klippy: KlippyConfig,
    pub database: DatabaseConfig,
}

#[derive(Debug)]
pub enum ConfigError {
    Io(std::io::Error),
    Ini(ini::Error),
    IniParse(ini::ParseError),
    Validation { section: String, key: String, message: String },
}

/// The value of `key` in `[section]`.
pub open spec fn ini_lookup(t: IniTable, section: Seq<char>, key: Seq<char>) -> Option<Seq<char>> {
    if t.contains_key((Some(section), key)) {
        Some(t[(Some(section), key)])
    } else {
        None
    }
}

/// The value of `key` in `[section]`, or where `key` is absent, that of
/// `alt`.
pub open spec fn ini_lookup_or(
    t: IniTable,
    section: Seq<char>,
    key: Seq<char>,
    alt: Seq<char>,
) -> Option<Seq<char>> {
    match ini_lookup(t, section, key) {
        Some(v) => Some(v),
        None => ini_lookup(t, section, alt),
    }
}

/// A path that names a location under the user's home directory.
pub open spec fn has_home_prefix(p: Seq<char>) -> bool {
    is_prefix_of("~/"@, p)
}

/// `p` with a leading `~/` replaced by the home directory `home`, where
/// there is one.
pub open spec fn resolved_with_home(p: Seq<char>, home: Option<Seq<char>>) -> Seq<char> {
    if has_home_prefix(p) {
        match home {
            Some(h) => path_joined(h, p.skip(2)),
            None => p,
        }
    } else {
        p
    }
}

/// `r` is `p` resolved against some home directory (or none).
pub open spec fn resolves_to(p: Seq<char>, r: Seq<char>) -> bool {
    exists|home: Option<Seq<char>>| r == resolved_with_home(p, home)
}

/// The listening port: the `port` value where it is an integer in
/// `1024..=65535`, 7125 otherwise.
pub open spec fn port_spec(raw: Option<Seq<char>>) -> u16 {
    match raw {
        Some(s) => match parse_unsigned(s, u32::MAX as nat) {
            Some(p) => if 1024 <= p <= 65535 {
                p as u16
            } else {
                7125
            },
            None => 7125,
        },
        None => 7125,
    }
}

/// An unsigned setting: the parsed value, or `default` where it is absent
/// or not an unsigned 64-bit integer.
pub open spec fn u64_setting(raw: Option<Seq<char>>, default: u64) -> u64 {
    match raw {
        Some(s) => match parse_unsigned(s, u64::MAX as nat) {
            Some(v) => v as u64,
            None => default,
        },
        None => default,
    }
}

/// The trusted client list: the comma-separated parts, each trimmed.
pub open spec fn trusted_clients_spec(raw: Seq<char>) -> Seq<Seq<char>> {
    split_spec(raw, ',').map_values(|p: Seq<char>| trim_spec(p))
}

/// `s`, or `default` where it is absent.
pub open spec fn or_default(s: Option<Seq<char>>, default: Seq<char>) -> Seq<char> {
    match s {
        Some(v) => v,
        None => default,
    }
}

/// `cfg` holds what the table `t` configures, with the defaults of each
/// setting that `t` leaves out.
pub open spec fn config_from_table(cfg: MoonrakerConfig, t: IniTable) -> bool {
    let server = "server"@;
    let klippy = "klippy"@;
    let database = "database"@;
    &&& cfg.server.host@ == or_default(ini_lookup(t, server, "host"@), "127.0.0.1"@)
    &&& cfg.server.port == port_spec(ini_lookup(t, server, "port"@))
    &&& cfg.server.ssl_enabled == match ini_lookup(t, server, "ssl_enabled"@) {
        Some(s) => match parse_bool_spec(s) {
            Some(b) => b,
            None => false,
        },
        None => false,
    }
    &&& cfg.server.max_upload_size_mb == u64_setting(
        ini_lookup_or(t, server, "max_upload_size"@, "max_upload_size_mb"@),
        1024,
    )
    &&& cfg.server.trusted_clients.deep_view() == trusted_clients_spec(
        or_default(ini_lookup(t, server, "trusted_clients"@), "127.0.0.1/32"@),
    )
    &&& cfg.server.api_key.deep_view() == ini_lookup(t, server, "api_key"@)
    &&& resolves_to(
        or_default(ini_lookup_or(t, klippy, "uds_address"@, "uds_path"@), "/tmp/klippy_uds"@),
        cfg.klippy.uds_path@,
    )
    &&& cfg.klippy.api_timeout_secs == u64_setting(
        ini_lookup_or(t, klippy, "api_timeout_secs"@, "api_timeout"@),
        30,
    )
    &&& resolves_to(
        or_default(
            ini_lookup_or(t, database, "database_path"@, "db_path"@),
            "~/.printer_data/database"@,
        ),
        cfg.database.db_path@,
    )
}

/// `path` with a leading `~/` replaced by `home`, where `home` is known.
pub fn resolve_path_with_home(path_str: &str, home: Option<String>) -> (r: String)
    ensures
        r@ == resolved_with_home(path_str@, home.deep_view()),
{
    if starts_with(path_str, "~/") {
        match home {
            Some(h) => {
                let v = chars_of(path_str);
                proof {
                    reveal_strlit("~/");
                }
                let rest = string_from_range(&v, 2, v.len());
                push_path(h.as_str(), rest.as_str())
            },
            None => path_str.to_owned(),
        }
    } else {
        path_str.to_owned()
    }
}

/// `path` with a leading `~/` replaced by the user's home directory. Paths
/// without that prefix come back unchanged.
pub fn resolve_path(path_str: &str) -> (r: String)
    ensures
        resolves_to(path_str@, r@),
        !has_home_prefix(path_str@) ==> r@ == path_str@,
{
    if starts_with(path_str, "~/") {
        let home = home_dir();
        let r = resolve_path_with_home(path_str, home);
        assert(r@ == resolved_with_home(path_str@, home.deep_view()));
        r
    } else {
        let r = path_str.to_owned();
        assert(r@ == resolved_with_home(path_str@, None));
        r
    }
}

/// The value of `key` in `[section]`, or where `key` is absent, that of
/// `alt`.
fn lookup_or(doc: &ini::Ini, section: &str, key: &str, alt: &str) -> (r: Option<String>)
    ensures
        r.deep_view() == ini_lookup_or(ini_entries(*doc), section@, key@, alt@),
{
    match ini_value(doc, section, key) {
        Some(v) => Some(v),
        None => ini_value(doc, section, alt),
    }
}

/// Parses an unsigned setting, falling back to `default`.
fn u64_or(raw: Option<String>, default: u64) -> (r: u64)
    ensures
        r == u64_setting(raw.deep_view(), default),
{
    match raw {
        Some(s) => match parse_decimal(s.as_str(), u64::MAX) {
            Some(v) => v,
            None => default,
        },
        None => default,
    }
}

/// Trims every comma-separated part of `raw`.
fn trusted_clients_from(raw: &str) -> (r: Vec<String>)
    ensures
        r.deep_view() == trusted_clients_spec(raw@),
{
    let parts = split_at_char(raw, ',');
    let mut out: Vec<String> = Vec::new();
    let mut i: usize = 0;
    while i < parts.len()
        invariant
            i <= parts@.len(),
            parts.deep_view() == split_spec(raw@, ','),
            out.deep_view() =~= parts.deep_view().take(i as int).map_values(
                |p: Seq<char>| trim_spec(p),
            ),
        decreases parts@.len() - i,
    {
        let t = trim(parts[i].as_str());
        let ghost old_out = out.deep_view();
        let ghost tv = t@;
        out.push(t);
        assert(out.deep_view() =~= old_out.push(tv));
        assert(parts.deep_view()[i as int] == parts@[i as int]@);
        assert(parts.deep_view().take(i + 1) =~= parts.deep_view().take(i as int).push(
            parts.deep_view()[i as int],
        ));
        assert(parts.deep_view().take(i + 1).map_values(|p: Seq<char>| trim_spec(p))
            =~= parts.deep_view().take(i as int).map_values(|p: Seq<char>| trim_spec(p)).push(
            trim_spec(parts.deep_view()[i as int]),
        ));
        i += 1;
    }
    assert(parts.deep_view().take(i as int) =~= parts.deep_view());
    out
}

/// The configured Klippy socket path, before `~/` is resolved.
pub open spec fn uds_setting(t: IniTable) -> Seq<char> {
    or_default(ini_lookup_or(t, "klippy"@, "uds_address"@, "uds_path"@), "/tmp/klippy_uds"@)
}

/// The configured database path, before `~/` is resolved.
pub open spec fn db_setting(t: IniTable) -> Seq<char> {
    or_default(
        ini_lookup_or(t, "database"@, "database_path"@, "db_path"@),
        "~/.printer_data/database"@,
    )
}

/// `cfg` holds what `t` configures, with both paths resolved against the
/// one home directory `home`.
pub open spec fn config_with_home(cfg: MoonrakerConfig, t: IniTable, home: Option<Seq<char>>) -> bool {
    &&& config_from_table(cfg, t)
    &&& cfg.klippy.uds_path@ == resolved_with_home(uds_setting(t), home)
    &&& cfg.database.db_path@ == resolved_with_home(db_setting(t), home)
}

/// Where a home directory is known, every configured `~/` path is expanded
/// under it (the rest of the path pushed onto the home directory), and any
/// other path is kept as configured; without a home directory both paths
/// are kept as configured.
pub proof fn law_home_paths_expanded(cfg: MoonrakerConfig, t: IniTable, home: Option<Seq<char>>)
    requires
        config_with_home(cfg, t, home),
    ensures
        home matches Some(h) ==> (has_home_prefix(uds_setting(t)) ==> cfg.klippy.uds_path@
            == path_joined(h, uds_setting(t).skip(2))),
        home matches Some(h) ==> (has_home_prefix(db_setting(t)) ==> cfg.database.db_path@
            == path_joined(h, db_setting(t).skip(2))),
        home is None || !has_home_prefix(uds_setting(t)) ==> cfg.klippy.uds_path@ == uds_setting(
            t,
        ),
        home is None || !has_home_prefix(db_setting(t)) ==> cfg.database.db_path@ == db_setting(
            t,
        ),
{
}

/// A copy of an optional home directory.
fn copy_home(home: &Option<String>) -> (r: Option<String>)
    ensures
        r.deep_view() == home.deep_view(),
{
    match home {
        Some(h) => Some(h.clone()),
        None => None,
    }
}

/// `text` without a leading byte-order mark.
pub open spec fn without_bom(text: Seq<char>) -> Seq<char> {
    if text.len() > 0 && text[0] == '\u{feff}' {
        text.skip(1)
    } else {
        text
    }
}

impl MoonrakerConfig {
    /// Loads the configuration from INI text.
    pub fn load_from_str(content: &str) -> (r: Result<Self, ConfigError>)
        ensures
            ini_parsed_entries(content@) is None <==> r is Err,
            r is Err ==> r matches Err(ConfigError::IniParse(_)),
            ini_parsed_entries(content@) matches Some(t) ==> (r matches Ok(cfg)
                && config_from_table(cfg, t)),
    {
        match parse_ini_document(content) {
            Ok(doc) => Self::load_from_ini(doc),
            Err(e) => Err(ConfigError::IniParse(e)),
        }
    }

    /// Loads the configuration from the text of a configuration file, as
    /// `ini::Ini::load_from_file` reads it: a leading byte-order mark is
    /// skipped, and text that does not parse is reported as an
    /// `ini::Error`.
    pub fn load_from_file_text(content: &str) -> (r: Result<Self, ConfigError>)
        ensures
            ini_parsed_entries(without_bom(content@)) is None <==> r is Err,
            r is Err ==> r matches Err(ConfigError::Ini(_)),
            ini_parsed_entries(without_bom(content@)) matches Some(t) ==> (r matches Ok(cfg)
                && config_from_table(cfg, t)),
    {
        let v = chars_of(content);
        let text: String = if v.len() > 0 && v[0] == '\u{feff}' {
            string_from_range(&v, 1, v.len())
        } else {
            string_from_range(&v, 0, v.len())
        };
        assert(text@ =~= without_bom(content@));
        match parse_ini_document(text.as_str()) {
            Ok(doc) => Self::load_from_ini(doc),
            Err(e) => Err(ConfigError::Ini(parse_error_as_ini_error(e))),
        }
    }

    /// Reads the configuration out of a parsed INI document. Settings that
    /// are absent or do not parse take their defaults; this never fails.
    /// `~/` paths are resolved against the user's home directory.
    pub fn load_from_ini(ini: ini::Ini) -> (r: Result<Self, ConfigError>)
        ensures
            r matches Ok(cfg) && config_from_table(cfg, ini_entries(ini)),
            r matches Ok(cfg) && 1024 <= cfg.server.port,
            r matches Ok(cfg) && exists|home: Option<Seq<char>>|
                config_with_home(cfg, ini_entries(ini), home),
    {
        let home = home_dir();
        let r = Self::load_from_ini_with_home(ini, home);
        proof {
            let cfg = r->Ok_0;
            assert(config_with_home(cfg, ini_entries(ini), home.deep_view()));
        }
        r
    }

    /// Reads the configuration out of a parsed INI document, resolving
    /// `~/` paths against the home directory `home` (none where `None`).
    pub fn load_from_ini_with_home(ini: ini::Ini, home: Option<String>) -> (r: Result<
        Self,
        ConfigError,
    >)
        ensures
            r matches Ok(cfg) && config_with_home(cfg, ini_entries(ini), home.deep_view()),
            r matches Ok(cfg) && 1024 <= cfg.server.port,
    {
        let ghost t = ini_entries(ini);
        // [server]
        let host = match ini_value(&ini, "server", "host") {
            Some(h) => h,
            None => "127.0.0.1".to_owned(),
        };
        let port: u16 = match ini_value(&ini, "server", "port") {
            Some(p) => match parse_decimal(p.as_str(), 4294967295u64) {
                Some(v) => if 1024 <= v && v <= 65535 {
                    v as u16
                } else {
                    7125
                },
                None => 7125,
            },
            None => 7125,
        };
        let ssl_enabled = match ini_value(&ini, "server", "ssl_enabled") {
            Some(s) => match parse_bool(s.as_str()) {
                Some(b) => b,
                None => false,
            },
            None => false,
        };
        let max_upload_size_mb = u64_or(
            lookup_or(&ini, "server", "max_upload_size", "max_upload_size_mb"),
            1024,
        );
        // [klippy]
        let uds_raw = match lookup_or(&ini, "klippy", "uds_address", "uds_path") {
            Some(p) => p,
            None => "/tmp/klippy_uds".to_owned(),
        };
        let uds_path = resolve_path_with_home(uds_raw.as_str(), copy_home(&home));
        let api_timeout_secs = u64_or(
            lookup_or(&ini, "klippy", "api_timeout_secs", "api_timeout"),
            30,
        );
        // [database]
        let db_raw = match lookup_or(&ini, "database", "database_path", "db_path") {
            Some(p) => p,
            None => "~/.printer_data/database".to_owned(),
        };
        let db_path = resolve_path_with_home(db_raw.as_str(), copy_home(&home));
        let trusted_raw = match ini_value(&ini, "server", "trusted_clients") {
            Some(s) => s,
            None => "127.0.0.1/32".to_owned(),
        };
        let trusted_clients = trusted_clients_from(trusted_raw.as_str());
        let api_key = ini_value(&ini, "server", "api_key");
        let cfg = MoonrakerConfig {
            server: ServerConfig {
                host,
                port,
                ssl_enabled,
                max_upload_size_mb,
                trusted_clients,
                api_key,
            },
            klippy: KlippyConfig { uds_path, api_timeout_secs },
            database: DatabaseConfig { db_path },
        };
        Ok(cfg)
    }
}

} // verus!
