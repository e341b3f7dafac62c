use vstd::prelude::*;

verus! {

/// Database connection settings, read once at process start.
#[derive(Debug)]
pub struct PostgresConfig {
    pub host: String,
    pub user: String,
    pub database: String,
    pub password: String,
    pub max_connections: u32,
}

/// Process-wide settings, read once at process start and immutable for the
/// process lifetime.
#[derive(Clone, Debug)]
pub struct MainConfig {
    pub log_level: String,
    pub jaeger: String,
    pub site_name: String,
}

/// Session settings, read once at process start.
#[derive(Debug)]
pub struct AuthConfig {
    pub session_cleanup_interval_seconds: u64,
    pub session_timeout_seconds: i64,
    pub table_name: String,
}

/// Search-index endpoint settings, read once at process start.
#[derive(Debug)]
pub struct MeilisearchConfig {
    pub host: String,
    pub master_key: String,
}

/// The one externally tunable knob of the synchronization engine: how many
/// hours each tracker sleeps between full-catalog refreshes.
#[derive(Debug)]
pub struct APISConfig {
    pub fetch_interval_hours: u64,
}

} // verus!
