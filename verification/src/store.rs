//! Records exchanged with the persistence layer.
//!
//! The store itself — a relational database behind an async driver —
//! lives outside the library.  What the library owns is the record
//! shapes and the one piece of logic the store setup needs: reading
//! the database file path out of a connection URL.

use vstd::prelude::*;

use crate::errors::ConfigError;
use crate::strings::str_eq;
use vstd::string::{StrSliceExecFns, StringExecFns};

verus! {

/// A stored recommendation shown to the user.
#[derive(Debug, Clone)]
pub struct AIRecommendation {
    pub id: String,
    pub user_id: String,
    pub environment_id: Option<String>,
    pub rec_type: String,
    pub priority: String,
    pub title: String,
    pub description: String,
    pub impact: Option<String>,
    pub action: String,
    pub estimated_savings: Option<String>,
    pub status: String,
    pub applied_at: Option<String>,
    pub dismissed_at: Option<String>,
    pub expires_at: Option<String>,
    pub created_at: String,
}

/// Database setup steps that the library can decide; running them is
/// the caller's side.
#[derive(Debug)]
pub struct DatabaseMigrations;

impl DatabaseMigrations {
    /// The file path inside a SQLite connection URL: what follows the
    /// `sqlite://` scheme prefix.  Any other URL is rejected.
    pub fn database_path_from_url(url: &String) -> (r: Result<String, ConfigError>)
        ensures
            r matches Ok(p) ==> url@.len() >= 9 && url@.subrange(0, 9) == "sqlite://"@ && p@
                == url@.subrange(9, url@.len() as int),
            r matches Err(e) ==> !(url@.len() >= 9 && url@.subrange(0, 9) == "sqlite://"@) && (
            e matches ConfigError::DatabaseInit(m) && m@ == "Invalid SQLite URL format"@),
    {
        let n = url.as_str().unicode_len();
        if n < 9 {
            return Err(ConfigError::DatabaseInit(String::from_str("Invalid SQLite URL format")));
        }
        let prefix = url.as_str().substring_char(0, 9).to_owned();
        if !str_eq(&prefix, &String::from_str("sqlite://")) {
            return Err(ConfigError::DatabaseInit(String::from_str("Invalid SQLite URL format")));
        }
        Ok(url.as_str().substring_char(9, n).to_owned())
    }
}

} // verus!
