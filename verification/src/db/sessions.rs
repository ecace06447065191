//! Session rows and their lifetime.
use vstd::prelude::*;

verus! {

/// A session joined with its user.
pub struct SessionRecord {
    pub user_id: i64,
    pub username: String,
    pub expires_at: i64,
}

/// A session is active while its expiry lies in the future.
pub open spec fn is_active(expires_at: i64, now: i64) -> bool {
    expires_at > now
}

/// The expiry a new session gets: `ttl_secs` after its creation.
pub fn session_expiry(now: i64, ttl_secs: i64) -> (r: i64)
    requires
        i64::MIN <= now + ttl_secs <= i64::MAX,
    ensures
        r == now + ttl_secs,
{
    now + ttl_secs
}

/// Whether a session with this expiry is active at `now`.
pub fn session_is_active(expires_at: i64, now: i64) -> (r: bool)
    ensures
        r == is_active(expires_at, now),
{
    expires_at > now
}

/// Sliding expiry: once less than half of the lifetime is left, a use of the
/// session pushes its expiry to a full lifetime from now.
pub open spec fn spec_slide(expires_at: i64, now: i64, ttl: i64) -> Option<i64> {
    if expires_at - now < half_toward_zero(ttl) {
        Some((now + ttl) as i64)
    } else {
        None
    }
}

/// `ttl / 2` rounded toward zero, as Rust's integer division does.
pub open spec fn half_toward_zero(ttl: i64) -> int {
    if ttl >= 0 {
        ttl / 2
    } else {
        -((-ttl) / 2)
    }
}

/// Whether the sliding computation stays within `i64`.
pub open spec fn slide_fits(expires_at: i64, now: i64, ttl: i64) -> bool {
    &&& i64::MIN <= expires_at - now <= i64::MAX
    &&& (expires_at - now < half_toward_zero(ttl) ==> i64::MIN <= now + ttl <= i64::MAX)
}

/// Whether the sliding computation for these values stays within `i64`.
pub fn slide_fits_exec(expires_at: i64, now: i64, ttl: i64) -> (r: bool)
    ensures
        r == slide_fits(expires_at, now, ttl),
{
    let d = (expires_at as i128) - (now as i128);
    if d < i64::MIN as i128 || d > i64::MAX as i128 {
        return false;
    }
    if d < (ttl / 2) as i128 {
        let e = (now as i128) + (ttl as i128);
        e >= i64::MIN as i128 && e <= i64::MAX as i128
    } else {
        true
    }
}

/// The new expiry to store when a session is used at `now`, or `None` when it stays.
pub fn slide_expiry(expires_at: i64, now: i64, ttl: i64) -> (r: Option<i64>)
    requires
        slide_fits(expires_at, now, ttl),
    ensures
        r == spec_slide(expires_at, now, ttl),
{
    if expires_at - now < ttl / 2 {
        Some(now + ttl)
    } else {
        None
    }
}


/// The expiry a session has after a use at `now`.
pub open spec fn expiry_after_use(expires_at: i64, now: i64, ttl: i64) -> int {
    match spec_slide(expires_at, now, ttl) {
        Some(e) => e as int,
        None => expires_at as int,
    }
}

/// Sliding sessions: a use leaves at least half a lifetime before expiry,
/// and never pushes the expiry past a full lifetime from now unless it already was.
pub proof fn lemma_use_extends_session(expires_at: i64, now: i64, ttl: i64)
    requires
        ttl >= 0,
        slide_fits(expires_at, now, ttl),
    ensures
        expiry_after_use(expires_at, now, ttl) >= now + ttl / 2,
        expiry_after_use(expires_at, now, ttl) <= if expires_at > now + ttl {
            expires_at as int
        } else {
            now + ttl
        },
{
}

/// A session dies after a lifetime without use: if its expiry is at most one
/// lifetime after its last use (as it is on creation), a use at any later time
/// keeps it so, and at any time a full lifetime after the last use it is no
/// longer active.
pub proof fn lemma_idle_session_expires(
    expires_at: i64,
    last_seen: i64,
    now: i64,
    ttl: i64,
    t: i64,
)
    requires
        ttl >= 0,
        expires_at <= last_seen + ttl,
        last_seen <= now,
        slide_fits(expires_at, now, ttl),
    ensures
        expiry_after_use(expires_at, now, ttl) <= now + ttl,
        t >= last_seen + ttl ==> !is_active(expires_at, t),
{
}

/// A new session is active for exactly its lifetime.
pub proof fn lemma_new_session_lifetime(now: i64, ttl: i64, t: i64)
    requires
        i64::MIN <= now + ttl <= i64::MAX,
    ensures
        is_active((now + ttl) as i64, t) <==> t < now + ttl,
{
}

} // verus!
