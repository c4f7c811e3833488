//! The database layer's own values: its configuration, the contributor
//! roles, the records of contributors and genres, search results, the
//! schema version kept in the database, and the texts of its queries'
//! parameters. The queries themselves run elsewhere.
use vstd::prelude::*;
use crate::plugins::{concat_str, push_str_chars};
use crate::server::jsonrpc::{i64_string, signed_decimal};
use crate::text::{parse_i32, parse_signed_spec, string_from_chars, string_of, to_lowercase, unicode_lowercase};

pub mod roles;

verus! {

/// Where the database lives and how many connections it may have.
#[derive(Debug, Clone)]
pub struct DatabaseConfig {
    pub path: String,
    pub max_connections: u32,
}

impl Default for DatabaseConfig {
    /// `lyrion-rust.db`, ten connections.
    fn default() -> (r: Self)
        ensures
            r.path@ == "lyrion-rust.db"@,
            r.max_connections == 10,
    {
        Self { path: string_of("lyrion-rust.db"), max_connections: 10 }
    }
}

/// A contributor (artist, composer, ...).
#[derive(Debug, Clone)]
pub struct Contributor {
    pub id: i64,
    pub name: Option<String>,
    pub namesort: Option<String>,
    pub namesearch: Option<String>,
    pub customsearch: Option<String>,
    pub musicbrainz_id: Option<String>,
    pub musicmagic_mixable: Option<bool>,
}

/// A genre.
#[derive(Debug, Clone)]
pub struct Genre {
    pub id: i64,
    pub name: Option<String>,
    pub namesort: Option<String>,
    pub namesearch: Option<String>,
    pub customsearch: Option<String>,
    pub musicmagic_mixable: Option<bool>,
}

/// A search hit: a track or an album.
#[derive(Debug, Clone)]
pub struct SearchResult {
    pub id: i64,
    pub title: String,
    pub artist: Option<String>,
    pub album: Option<String>,
    pub track_type: String,
}

/// The URL of a SQLite database file: `sqlite:<path>?mode=rwc` to create
/// it if missing, `?mode=rw` to open an existing one.
pub fn sqlite_url(path: &str, create: bool) -> (r: String)
    ensures
        r@ == "sqlite:"@ + path@ + (if create {
            "?mode=rwc"@
        } else {
            "?mode=rw"@
        }),
{
    let a = concat_str("sqlite:", path);
    if create {
        concat_str(a.as_str(), "?mode=rwc")
    } else {
        concat_str(a.as_str(), "?mode=rw")
    }
}

/// The schema version stored as text, where it is a number.
pub fn parse_schema_version(value: Option<&str>) -> (r: Option<i32>)
    ensures
        match value {
            Some(v) => match parse_signed_spec(v@, i32::MIN as int, i32::MAX as int) {
                Some(n) => r == Some(n as i32),
                None => r is None,
            },
            None => r is None,
        },
{
    match value {
        Some(v) => parse_i32(v),
        None => None,
    }
}

/// The oldest schema version that needs no migration.
pub const CURRENT_SCHEMA_VERSION: i32 = 26;

/// Whether a database copied from the older server must be migrated: a
/// version below 26 (an unreadable one counts as 0); none where it has
/// no version.
pub fn needs_migration(value: Option<&str>) -> (r: Option<bool>)
    ensures
        match value {
            Some(v) => r == Some(
                match parse_signed_spec(v@, i32::MIN as int, i32::MAX as int) {
                    Some(n) => n < 26,
                    None => true,
                },
            ),
            None => r is None,
        },
{
    match value {
        Some(v) => {
            let ver = match parse_i32(v) {
                Some(n) => n,
                None => 0,
            };
            Some(ver < 26)
        },
        None => None,
    }
}

/// The text a schema version is stored as.
pub fn schema_version_text(version: i32) -> (r: String)
    ensures
        r@ == signed_decimal(version as int),
{
    i64_string(version as i64)
}

/// A `LIKE` pattern matching the text anywhere.
pub fn like_pattern(query: &str) -> (r: String)
    ensures
        r@ == "%"@ + query@ + "%"@,
{
    let a = concat_str("%", query);
    concat_str(a.as_str(), "%")
}

/// A `LIKE` pattern matching the text in lower case anywhere.
pub fn lowercase_like_pattern(query: &str) -> (r: String)
    ensures
        r@ == "%"@ + unicode_lowercase(query@) + "%"@,
{
    let l = to_lowercase(query);
    like_pattern(l.as_str())
}

/// The key a name is searched by: the name in lower case.
pub fn name_search_key(name: &str) -> (r: String)
    ensures
        r@ == unicode_lowercase(name@),
{
    to_lowercase(name)
}

/// The statement that makes a SQLite database visible to the search engine as `lms`.
pub fn attach_sql(sqlite_path: &str) -> (r: String)
    ensures
        r@ == "ATTACH '"@ + sqlite_path@ + "' AS lms (TYPE sqlite);"@,
{
    let a = concat_str("ATTACH '", sqlite_path);
    concat_str(a.as_str(), "' AS lms (TYPE sqlite);")
}

} // verus!
