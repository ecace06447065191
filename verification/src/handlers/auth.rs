//! Login and logout decisions.
use vstd::prelude::*;

use crate::auth::middleware::AuthUser;
use crate::auth::password::{spec_password_verifies, verify_password};
use crate::db::audit::AuditWrite;
use crate::db::users::{after_failures, is_locked, lemma_lockout_after_max_failures, UserAuth};
use crate::error::AppError;

verus! {

/// The body of a login request.
pub struct LoginRequest {
    pub username: String,
    pub password: String,
}

/// The body of a successful login response.
pub struct LoginResponse {
    pub username: String,
}

/// Refuses a login request with an empty username or password.
pub fn check_credentials(req: &LoginRequest) -> (r: Result<(), AppError>)
    ensures
        r is Ok <==> req.username@.len() > 0 && req.password@.len() > 0,
        r matches Err(e) ==> (e matches AppError::BadRequest(m) && m@ == "missing credentials"@),
{
    if req.username.as_str().is_empty() || req.password.as_str().is_empty() {
        Err(AppError::BadRequest(String::from_str("missing credentials")))
    } else {
        Ok(())
    }
}

/// How a login attempt proceeds once the user has been looked up.
#[derive(Clone, Copy, Debug, PartialEq, Eq, Structural)]
pub enum LoginStage {
    /// No such user: check against a dummy hash (so that timing does not
    /// reveal which users exist), then refuse.
    UnknownUser,
    /// The account is locked for this many more seconds: refuse without
    /// checking the password.
    Locked { remaining_secs: u64 },
    /// Check the password against the user's hash.
    CheckPassword,
}

/// The stage of a login for a looked-up user at time `now`.
pub open spec fn spec_stage(user: Option<UserAuth>, now: i64) -> LoginStage {
    match user {
        None => LoginStage::UnknownUser,
        Some(u) => match u.locked_until {
            Some(t) => if t > now {
                LoginStage::Locked { remaining_secs: (t - now) as u64 }
            } else {
                LoginStage::CheckPassword
            },
            None => LoginStage::CheckPassword,
        },
    }
}

/// Decides how a login attempt proceeds for the looked-up `user` at `now`.
pub fn login_stage(user: &Option<UserAuth>, now: i64) -> (r: LoginStage)
    ensures
        r == spec_stage(*user, now),
{
    match user {
        None => LoginStage::UnknownUser,
        Some(u) => match u.locked_until {
            Some(t) => if t > now {
                let d = (t as i128) - (now as i128);
                LoginStage::Locked { remaining_secs: d as u64 }
            } else {
                LoginStage::CheckPassword
            },
            None => LoginStage::CheckPassword,
        },
    }
}

/// The outcome of a login attempt, as a plain value.
#[derive(Clone, Copy, Debug, PartialEq, Eq, Structural)]
pub enum LoginVerdict {
    UnknownUser,
    Locked { remaining_secs: u64 },
    BadPassword,
    Success,
}

/// The verdict for a looked-up user at `now`, given whether the password
/// matched (which only counts when the stage asked for the check).
pub open spec fn spec_verdict(user: Option<UserAuth>, now: i64, password_ok: bool) -> LoginVerdict {
    match spec_stage(user, now) {
        LoginStage::UnknownUser => LoginVerdict::UnknownUser,
        LoginStage::Locked { remaining_secs } => LoginVerdict::Locked { remaining_secs },
        LoginStage::CheckPassword => if password_ok {
            LoginVerdict::Success
        } else {
            LoginVerdict::BadPassword
        },
    }
}

/// What a login attempt does: which table updates to make, which audit
/// record to write, and what to answer.
pub struct LoginEffects<'a> {
    /// Count one more failure against the user (and lock when due).
    pub record_failure: bool,
    /// Clear the user's failures and lock.
    pub reset_failures: bool,
    /// Create a session for the user.
    pub open_session: bool,
    /// The audit record of the attempt.
    pub audit: AuditWrite<'a>,
    /// The answer: `Ok` on success.
    pub result: Result<(), AppError>,
}

/// The effects of a login attempt that the verdict fixes.
pub open spec fn effects_match(
    e: LoginEffects,
    verdict: LoginVerdict,
    username: Seq<char>,
    ip: Seq<char>,
    user: Option<UserAuth>,
) -> bool {
    &&& e.record_failure == (verdict == LoginVerdict::BadPassword)
    &&& e.reset_failures == (verdict == LoginVerdict::Success)
    &&& e.open_session == (verdict == LoginVerdict::Success)
    &&& e.audit.ip matches Some(i) && i@ == ip
    &&& e.audit.target is None
    &&& match verdict {
        LoginVerdict::UnknownUser => {
            &&& e.audit.user_id is None
            &&& e.audit.username matches Some(n) && n@ == username
            &&& e.audit.action@ == "login_fail"@
            &&& e.audit.detail matches Some(d) && d@ == "unknown user"@
            &&& e.result matches Err(AppError::BadCredentials)
        },
        LoginVerdict::Locked { remaining_secs } => {
            &&& e.audit.user_id == Some(user->0.id)
            &&& e.audit.username matches Some(n) && n@ == user->0.username@
            &&& e.audit.action@ == "login_locked"@
            &&& e.audit.detail is None
            &&& e.result matches Err(AppError::AccountLocked(s)) && s == remaining_secs
        },
        LoginVerdict::BadPassword => {
            &&& e.audit.user_id == Some(user->0.id)
            &&& e.audit.username matches Some(n) && n@ == user->0.username@
            &&& e.audit.action@ == "login_fail"@
            &&& e.audit.detail matches Some(d) && d@ == "bad password"@
            &&& e.result matches Err(AppError::BadCredentials)
        },
        LoginVerdict::Success => {
            &&& e.audit.user_id == Some(user->0.id)
            &&& e.audit.username matches Some(n) && n@ == user->0.username@
            &&& e.audit.action@ == "login_ok"@
            &&& e.audit.detail is None
            &&& e.result is Ok
        },
    }
}

/// The effects of a login attempt by `username` from `ip`, where `user` is the
/// looked-up account, `now` the time and `password_ok` whether the password
/// matched the user's hash (ignored unless the stage asks for the check).
pub fn login_effects<'a>(
    username: &'a str,
    ip: &'a str,
    user: &'a Option<UserAuth>,
    now: i64,
    password_ok: bool,
) -> (e: LoginEffects<'a>)
    ensures
        effects_match(e, spec_verdict(*user, now, password_ok), username@, ip@, *user),
{
    let stage = login_stage(user, now);
    match user {
        None => LoginEffects {
            record_failure: false,
            reset_failures: false,
            open_session: false,
            audit: AuditWrite {
                user_id: None,
                username: Some(username),
                ip: Some(ip),
                action: "login_fail",
                target: None,
                detail: Some("unknown user"),
            },
            result: Err(AppError::BadCredentials),
        },
        Some(u) => match stage {
            LoginStage::Locked { remaining_secs } => LoginEffects {
                record_failure: false,
                reset_failures: false,
                open_session: false,
                audit: AuditWrite {
                    user_id: Some(u.id),
                    username: Some(u.username.as_str()),
                    ip: Some(ip),
                    action: "login_locked",
                    target: None,
                    detail: None,
                },
                result: Err(AppError::AccountLocked(remaining_secs)),
            },
            _ => if password_ok {
                LoginEffects {
                    record_failure: false,
                    reset_failures: true,
                    open_session: true,
                    audit: AuditWrite {
                        user_id: Some(u.id),
                        username: Some(u.username.as_str()),
                        ip: Some(ip),
                        action: "login_ok",
                        target: None,
                        detail: None,
                    },
                    result: Ok(()),
                }
            } else {
                LoginEffects {
                    record_failure: true,
                    reset_failures: false,
                    open_session: false,
                    audit: AuditWrite {
                        user_id: Some(u.id),
                        username: Some(u.username.as_str()),
                        ip: Some(ip),
                        action: "login_fail",
                        target: None,
                        detail: Some("bad password"),
                    },
                    result: Err(AppError::BadCredentials),
                }
            },
        },
    }
}

/// Whether `password` matches the stored hash of the looked-up `user`; no
/// password matches for an unknown user.
pub open spec fn password_matches(user: Option<UserAuth>, password: Seq<char>) -> bool {
    match user {
        Some(u) => spec_password_verifies(password, u.password_hash@),
        None => false,
    }
}

/// A login attempt by `username` with `password` from `ip`, where `user` is
/// the looked-up account and `now` the time. The password is checked against
/// the user's hash only when the account exists and is not locked; for an
/// unknown user it is checked against `dummy_hash` and the answer dropped, so
/// that the time taken does not reveal which users exist. A session is opened
/// only when the password verifies against the stored hash.
pub fn login_attempt<'a>(
    username: &'a str,
    password: &str,
    ip: &'a str,
    user: &'a Option<UserAuth>,
    now: i64,
    dummy_hash: &str,
) -> (e: LoginEffects<'a>)
    ensures
        effects_match(e, spec_verdict(*user, now, password_matches(*user, password@)), username@, ip@, *user),
        e.open_session ==> (user matches Some(u) && spec_password_verifies(password@, u.password_hash@)
            && !is_locked(u.locked_until, now)),
{
    let stage = login_stage(user, now);
    let password_ok = match user {
        Some(u) => match stage {
            LoginStage::CheckPassword => verify_password(password, u.password_hash.as_str()),
            _ => false,
        },
        None => {
            let _ = verify_password(password, dummy_hash);
            false
        },
    };
    let e = login_effects(username, ip, user, now, password_ok);
    proof {
        lemma_session_only_after_valid_login(e, username@, ip@, *user, now, password_ok);
    }
    e
}

/// The audit record of a logout.
pub fn logout_audit<'a>(user: &'a AuthUser) -> (w: AuditWrite<'a>)
    ensures
        w.user_id == Some(user.user_id),
        w.username matches Some(n) && n@ == user.username@,
        match user.ip {
            Some(i) => w.ip matches Some(j) && j@ == i@,
            None => w.ip is None,
        },
        w.action@ == "logout"@,
        w.target is None,
        w.detail is None,
{
    let ip = match &user.ip {
        Some(i) => Some(i.as_str()),
        None => None,
    };
    AuditWrite {
        user_id: Some(user.user_id),
        username: Some(user.username.as_str()),
        ip,
        action: "logout",
        target: None,
        detail: None,
    }
}


/// A locked account is refused whatever password is given, with the time
/// left on its lock: the password is not even checked.
pub proof fn lemma_locked_account_refuses_any_password(
    user: Option<UserAuth>,
    now: i64,
    p1: bool,
    p2: bool,
)
    requires
        user is Some,
        is_locked(user->0.locked_until, now),
    ensures
        spec_stage(user, now) matches LoginStage::Locked { .. },
        spec_verdict(user, now, p1) == spec_verdict(user, now, p2),
        spec_verdict(user, now, p1) == (LoginVerdict::Locked {
            remaining_secs: (user->0.locked_until->0 - now) as u64,
        }),
{
}

/// An unknown user and a wrong password get the same answer, so the answer
/// does not reveal which usernames exist.
pub proof fn lemma_unknown_user_answer_is_bad_password_answer(
    e1: LoginEffects,
    e2: LoginEffects,
    username: Seq<char>,
    ip: Seq<char>,
    u1: Option<UserAuth>,
    u2: Option<UserAuth>,
)
    requires
        effects_match(e1, LoginVerdict::UnknownUser, username, ip, u1),
        effects_match(e2, LoginVerdict::BadPassword, username, ip, u2),
    ensures
        e1.result matches Err(AppError::BadCredentials),
        e2.result matches Err(AppError::BadCredentials),
{
}

/// A session is opened only for an existing, unlocked user whose password
/// matched; and then the user's failures are cleared.
pub proof fn lemma_session_only_after_valid_login(
    e: LoginEffects,
    username: Seq<char>,
    ip: Seq<char>,
    user: Option<UserAuth>,
    now: i64,
    password_ok: bool,
)
    requires
        effects_match(e, spec_verdict(user, now, password_ok), username, ip, user),
    ensures
        e.open_session ==> (user is Some && !is_locked(user->0.locked_until, now) && password_ok
            && e.reset_failures && e.result is Ok),
        e.result is Ok <==> e.open_session,
{
}

/// Every login attempt is audited with the client address, and a failed or
/// refused attempt changes nothing but the failure counter.
pub proof fn lemma_every_attempt_audited(
    e: LoginEffects,
    username: Seq<char>,
    ip: Seq<char>,
    user: Option<UserAuth>,
    now: i64,
    password_ok: bool,
)
    requires
        effects_match(e, spec_verdict(user, now, password_ok), username, ip, user),
    ensures
        e.audit.ip matches Some(i) && i@ == ip,
        e.audit.action@ == "login_ok"@ || e.audit.action@ == "login_fail"@ || e.audit.action@
            == "login_locked"@,
        e.result is Err ==> !e.open_session && !e.reset_failures,
{
}


/// A password logs in to an unlocked account whose stored hash it verifies
/// against, which is true of the hash that `hash` made of it: a user created
/// or given a new password can log in with it.
pub proof fn lemma_own_password_logs_in(u: UserAuth, password: Seq<char>, now: i64)
    ensures
        spec_password_verifies(password, u.password_hash@) && !is_locked(u.locked_until, now)
            ==> spec_verdict(Some(u), now, password_matches(Some(u), password))
            == LoginVerdict::Success,
{
}

/// Failed-login lockout: after `max_failures` consecutive wrong passwords
/// (the last at `now`), every login attempt until `lockout_secs` later is
/// refused as locked, even with the right password; fewer failures never lock.
pub proof fn lemma_lockout_after_repeated_failures(
    u: UserAuth,
    n: nat,
    max_failures: u32,
    now: i64,
    lockout_secs: i64,
    t: i64,
    password_ok: bool,
)
    requires
        1 <= max_failures,
        n < u32::MAX,
        i64::MIN <= now + lockout_secs <= i64::MAX,
        u.locked_until == after_failures(n, max_failures, now, lockout_secs).1,
    ensures
        n >= max_failures && now <= t < now + lockout_secs ==> spec_verdict(Some(u), t, password_ok)
            matches LoginVerdict::Locked { .. },
        n < max_failures ==> spec_verdict(Some(u), t, password_ok) == (if password_ok {
            LoginVerdict::Success
        } else {
            LoginVerdict::BadPassword
        }),
{
    lemma_lockout_after_max_failures(n, max_failures, now, lockout_secs);
}

} // verus!
