//! Session tokens and request authentication.
pub mod middleware;
pub mod password;
pub mod session;
