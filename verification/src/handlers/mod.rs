//! The decisions that the HTTP handlers make around their I/O.
pub mod audit;
pub mod auth;
pub mod logs;
pub mod processes;
pub mod services;
