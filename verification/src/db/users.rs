//! Rows of the users table and the failed-login bookkeeping.
use vstd::prelude::*;

verus! {

/// A user as listed by the CLI.
pub struct User {
    pub id: i64,
    pub username: String,
    pub created_at: i64,
}

/// What a login needs to know of a user.
pub struct UserAuth {
    pub id: i64,
    pub username: String,
    pub password_hash: String,
    pub failed_count: u32,
    pub locked_until: Option<i64>,
}

/// The failure counter and lock that one failed login leaves behind: the
/// counter goes up by one, and once it (taken as a `u32`) reaches
/// `max_failures` the account is locked until `now + lockout_secs`.
pub open spec fn spec_failed_update(failed_count: i64, max_failures: u32, now: i64, lockout_secs: i64) -> (
    i64,
    Option<i64>,
) {
    let next = failed_count + 1;
    if (next as u32) >= max_failures {
        (next as i64, Some((now + lockout_secs) as i64))
    } else {
        (next as i64, None)
    }
}

/// Whether the update of a failed login stays within `i64`.
pub open spec fn failed_update_fits(failed_count: i64, max_failures: u32, now: i64, lockout_secs: i64) -> bool {
    &&& failed_count < i64::MAX
    &&& (((failed_count + 1) as u32) >= max_failures ==> i64::MIN <= now + lockout_secs <= i64::MAX)
}

/// Whether the update of a failed login for these values stays within `i64`.
pub fn failed_update_fits_exec(failed_count: i64, max_failures: u32, now: i64, lockout_secs: i64) -> (r: bool)
    ensures
        r == failed_update_fits(failed_count, max_failures, now, lockout_secs),
{
    if failed_count == i64::MAX {
        return false;
    }
    if ((failed_count + 1) as u32) >= max_failures {
        let e = (now as i128) + (lockout_secs as i128);
        e >= i64::MIN as i128 && e <= i64::MAX as i128
    } else {
        true
    }
}

/// The new `(failed_count, locked_until)` of a user after a failed login,
/// given the stored `failed_count`.
pub fn failed_login_update(failed_count: i64, max_failures: u32, now: i64, lockout_secs: i64) -> (r: (
    i64,
    Option<i64>,
))
    requires
        failed_update_fits(failed_count, max_failures, now, lockout_secs),
    ensures
        r == spec_failed_update(failed_count, max_failures, now, lockout_secs),
{
    let next = failed_count + 1;
    if (next as u32) >= max_failures {
        (next, Some(now + lockout_secs))
    } else {
        (next, None)
    }
}

/// The state a successful login or a password change leaves: no failures, no lock.
pub open spec fn spec_reset() -> (i64, Option<i64>) {
    (0, None)
}

/// Whether a user with this lock is locked at time `now`.
pub open spec fn is_locked(locked_until: Option<i64>, now: i64) -> bool {
    match locked_until {
        Some(t) => t > now,
        None => false,
    }
}


/// The `(failed_count, locked_until)` of a user after `n` consecutive failed
/// logins at time `now`, starting from a cleared user.
pub open spec fn after_failures(n: nat, max_failures: u32, now: i64, lockout_secs: i64) -> (
    i64,
    Option<i64>,
)
    decreases n,
{
    if n == 0 {
        spec_reset()
    } else {
        spec_failed_update(
            after_failures((n - 1) as nat, max_failures, now, lockout_secs).0,
            max_failures,
            now,
            lockout_secs,
        )
    }
}

/// Failed logins count up one by one from a cleared user, and the account is
/// locked (until `lockout_secs` after the failure) exactly once the count
/// reaches `max_failures`.
pub proof fn lemma_lockout_after_max_failures(n: nat, max_failures: u32, now: i64, lockout_secs: i64)
    requires
        n < u32::MAX,
        i64::MIN <= now + lockout_secs <= i64::MAX,
    ensures
        after_failures(n, max_failures, now, lockout_secs).0 == n,
        after_failures(n, max_failures, now, lockout_secs).1 == (if n > 0 && n >= max_failures {
            Some((now + lockout_secs) as i64)
        } else {
            None
        }),
    decreases n,
{
    if n > 0 {
        lemma_lockout_after_max_failures((n - 1) as nat, max_failures, now, lockout_secs);
        let c = after_failures((n - 1) as nat, max_failures, now, lockout_secs).0;
        assert(c + 1 == n);
        assert(((c + 1) as u32) == n);
    }
}

/// Each failure keeps within `i64` from a cleared user, up to `u32::MAX - 1` failures.
pub proof fn lemma_failures_fit(n: nat, max_failures: u32, now: i64, lockout_secs: i64)
    requires
        n < u32::MAX - 1,
        i64::MIN <= now + lockout_secs <= i64::MAX,
    ensures
        failed_update_fits(
            after_failures(n, max_failures, now, lockout_secs).0,
            max_failures,
            now,
            lockout_secs,
        ),
{
    lemma_lockout_after_max_failures(n, max_failures, now, lockout_secs);
}

/// A lock set at `now` holds for the whole lockout: at every time from `now`
/// up to (not including) `now + lockout_secs` the account is locked, and from
/// then on it is not.
pub proof fn lemma_lock_lasts_lockout(now: i64, lockout_secs: i64, t: i64)
    requires
        i64::MIN <= now + lockout_secs <= i64::MAX,
    ensures
        now <= t < now + lockout_secs ==> is_locked(Some((now + lockout_secs) as i64), t),
        t >= now + lockout_secs ==> !is_locked(Some((now + lockout_secs) as i64), t),
{
}

/// Clearing the failures unlocks the account at any time.
pub proof fn lemma_reset_unlocks(t: i64)
    ensures
        spec_reset().0 == 0,
        !is_locked(spec_reset().1, t),
{
}

} // verus!
