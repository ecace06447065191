//! The audit listing.
use vstd::prelude::*;

verus! {

/// The query string of the audit listing.
pub struct AuditQuery {
    pub limit: Option<i64>,
}

/// How many entries the audit listing returns: the requested number (100 by
/// default), kept between 1 and 1000.
pub fn audit_limit(q: &AuditQuery) -> (r: i64)
    ensures
        r == (match q.limit {
            Some(l) => if l < 1 {
                1
            } else if l > 1000 {
                1000
            } else {
                l
            },
            None => 100,
        }),
        1 <= r <= 1000,
{
    let l = match q.limit {
        Some(l) => l,
        None => 100,
    };
    if l < 1 {
        1
    } else if l > 1000 {
        1000
    } else {
        l
    }
}

} // verus!
