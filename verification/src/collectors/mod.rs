//! What the collectors compute from the raw data they gather.
pub mod docker;
pub mod pm2;
pub mod system;
pub mod systemd;
