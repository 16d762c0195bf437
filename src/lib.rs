//! Persistence and authentication core of an audio-investigation case manager.
//!
//! The store keeps one table per entity, assigns identifiers and timestamps,
//! enforces referential integrity (with cascading deletes) and offers the
//! per-entity repository operations; the authentication service verifies
//! credentials against salted adaptive password hashes.

pub mod activity_logs;
pub mod api;
pub mod audio;
pub mod auth;
pub mod bootstrap;
pub mod cases;
pub mod clock;
pub mod db;
pub mod error;
pub mod greet;
pub mod laws;
pub mod models;
pub mod notifications;
pub mod password;
pub mod pool;
pub mod sorting;
pub mod speakers;
pub mod table;
pub mod text;
pub mod transcript;
pub mod users;
pub mod vocabulary;
