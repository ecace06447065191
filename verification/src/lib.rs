//! The decision logic of a read-only VPS monitoring server, verified with
//! Verus: bind policy, authentication and lockout, audit records, name
//! allow-lists, command-output parsing, and metric aggregation.
pub mod error;
pub mod db;
pub mod text;
pub mod config;
pub mod auth;
pub mod handlers;
pub mod collectors;
