//! Audit-log records and their retention.
use vstd::prelude::*;

verus! {

/// An audit entry as listed by the API.
pub struct AuditEntry {
    pub id: i64,
    pub ts: i64,
    pub username: Option<String>,
    pub ip: Option<String>,
    pub action: String,
    pub target: Option<String>,
    pub detail: Option<String>,
}

/// An audit entry to be written.
pub struct AuditWrite<'a> {
    pub user_id: Option<i64>,
    pub username: Option<&'a str>,
    pub ip: Option<&'a str>,
    pub action: &'a str,
    pub target: Option<&'a str>,
    pub detail: Option<&'a str>,
}

/// Entries older than this timestamp are purged: `retain_days` days before `now`.
pub fn audit_cutoff(now: i64, retain_days: u64) -> (r: i64)
    requires
        i64::MIN <= (retain_days as i64) * 86400 <= i64::MAX,
        i64::MIN <= now - (retain_days as i64) * 86400 <= i64::MAX,
    ensures
        r == now - (retain_days as i64) * 86400,
{
    now - (retain_days as i64) * 86400
}

} // verus!
