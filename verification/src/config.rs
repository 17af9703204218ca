//! Server configuration values: defaults, and the checks and derivations
//! applied to what the environment supplies.

use vstd::prelude::*;
use vstd::string::StringExecFns;

verus! {

/// Listen address unless configured.
pub const DEFAULT_HTTP_BIND: &'static str = "0.0.0.0:8080";

/// Log filter unless configured.
pub const DEFAULT_LOG_LEVEL: &'static str = "info";

/// Data directory unless configured.
pub const DEFAULT_DATA_DIR: &'static str = "./data";

/// File name of the database inside the data directory.
pub const DEFAULT_DB_FILENAME: &'static str = "immich-extended.sqlite";

/// A configuration value that was present but unusable.
#[derive(Debug, Clone, PartialEq, Eq)]
pub enum ConfigError {
    /// `HTTP_BIND` is not a socket address.
    InvalidHttpBind { value: String },
    /// `DATA_DIR` is empty.
    InvalidDataDir { value: String },
    /// `DATABASE_URL` is set but empty.
    EmptyDatabaseUrl,
}

/// Refuses an empty data directory.
pub fn check_data_dir(raw: &str) -> (r: Result<(), ConfigError>)
    ensures
        r is Ok <==> raw@.len() > 0,
        r matches Err(e) ==> (e matches ConfigError::InvalidDataDir { value } && value@ == raw@),
{
    if raw.is_empty() {
        return Err(ConfigError::InvalidDataDir { value: raw.to_owned() });
    }
    Ok(())
}

/// `dir` joined with the relative path `name`, as a path join does on Unix:
/// a separator is added unless `dir` is empty or already ends with one.
pub open spec fn path_join(dir: Seq<char>, name: Seq<char>) -> Seq<char> {
    if dir.len() == 0 {
        name
    } else if dir.last() == '/' {
        dir + name
    } else {
        dir + seq!['/'] + name
    }
}

/// The database URL used when none is configured: the database file in the
/// data directory, created on first use.
pub open spec fn default_url_for(data_dir: Seq<char>) -> Seq<char> {
    "sqlite://"@ + path_join(data_dir, DEFAULT_DB_FILENAME@) + "?mode=rwc"@
}

/// The default database URL for `data_dir`:
/// `sqlite://<data_dir>/immich-extended.sqlite?mode=rwc`.
pub fn default_database_url(data_dir: &str) -> (url: String)
    ensures
        url@ == default_url_for(data_dir@),
{
    let mut url = String::from_str("sqlite://");
    if data_dir.is_empty() {
        url.append(DEFAULT_DB_FILENAME);
    } else {
        let cs = crate::text::chars_of(data_dir);
        url.append(data_dir);
        if cs[cs.len() - 1] != '/' {
            url.append("/");
        }
        url.append(DEFAULT_DB_FILENAME);
    }
    url.append("?mode=rwc");
    proof {
        reveal_strlit("/");
        if data_dir@.len() > 0 && data_dir@.last() != '/' {
            assert("sqlite://"@ + data_dir@ + "/"@ + DEFAULT_DB_FILENAME@ + "?mode=rwc"@ =~= default_url_for(data_dir@));
        } else if data_dir@.len() > 0 {
            assert("sqlite://"@ + data_dir@ + DEFAULT_DB_FILENAME@ + "?mode=rwc"@ =~= default_url_for(data_dir@));
        }
    }
    url
}

/// The database URL: the configured one, refused when empty, or the
/// default for the data directory when none is configured.
pub fn choose_database_url(raw: Option<String>, data_dir: &str) -> (r: Result<String, ConfigError>)
    ensures
        match raw {
            Some(v) => if v@.len() == 0 {
                r == Err::<String, ConfigError>(ConfigError::EmptyDatabaseUrl)
            } else {
                r == Ok::<String, ConfigError>(v)
            },
            None => r matches Ok(url) && url@ == default_url_for(data_dir@),
        },
{
    match raw {
        Some(v) => {
            if v.as_str().is_empty() {
                Err(ConfigError::EmptyDatabaseUrl)
            } else {
                Ok(v)
            }
        },
        None => Ok(default_database_url(data_dir)),
    }
}

} // verus!
