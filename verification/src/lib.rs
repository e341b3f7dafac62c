//! Ingestion and synchronization engine for a catalog search service: the
//! rate-limiting discipline, the bounded-concurrency paginated fetch, the
//! index-first query path with live fallback, and the periodic tracker that
//! keeps a search index consistent with two upstream providers.
//!
//! Every component here only decides; the surrounding process performs the
//! requests, sleeps and index calls, and reports their outcomes back.

pub mod anilist;
pub mod auth;
pub mod config;
pub mod db;
pub mod fetch;
pub mod index;
pub mod jikan;
pub mod limiter;
pub mod search;
pub mod tracker;
