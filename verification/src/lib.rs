//! Rule engine for auto-populating photo albums: the rule schema, the match
//! tree and its validator, the predicate evaluators, album reconciliation,
//! the live activity buffer, and the decisions of the server around them.

pub mod text;
pub mod schema;
pub mod match_expr;
pub mod tree_eval;
pub mod tree_verdict;
pub mod predicate;
pub mod validator;
pub mod album_sync;
pub mod activity;
pub mod immich;
pub mod rules_api;
pub mod engine_cycle;
pub mod indexer;
pub mod scheduler;
pub mod onboarding;
pub mod crypto;
pub mod session;
pub mod auth;
pub mod password;
pub mod config;
pub mod keys;

use vstd::prelude::*;

verus! {

/// The package version.
pub const VERSION: &'static str = "0.1.0";

/// The package version.
pub fn version() -> (v: &'static str)
    ensures
        v@ == VERSION@,
{
    VERSION
}

/// Body of `GET /health`: the service is up, its version, and whether the
/// database answered a ping.
#[derive(Debug, Clone, Copy, PartialEq, Eq)]
pub struct HealthResponse {
    pub status: &'static str,
    pub version: &'static str,
    /// `ok` or `down`.
    pub db: &'static str,
}

/// The health report, given whether the database answered.
pub fn health_response(db_ok: bool) -> (h: HealthResponse)
    ensures
        h.status@ == "ok"@,
        h.version@ == VERSION@,
        h.db@ == (if db_ok {
            "ok"@
        } else {
            "down"@
        }),
{
    HealthResponse { status: "ok", version: VERSION, db: if db_ok {
        "ok"
    } else {
        "down"
    } }
}

} // verus!
