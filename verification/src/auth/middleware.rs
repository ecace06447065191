//! The authenticated user of a request, and the request checks around it.
use vstd::prelude::*;

use crate::db::sessions::{is_active, slide_expiry, slide_fits, spec_slide, SessionRecord};
use crate::error::AppError;
use crate::text::{before_first, chars_of, eq_ignore_ascii_case, eq_ignore_ascii_case_exec, find_char, string_from_range, trim, trim_bounds};

verus! {

/// The user behind a request with a valid session cookie.
pub struct AuthUser {
    pub user_id: i64,
    pub username: String,
    pub token: String,
    pub ip: Option<String>,
}

/// Whether an `X-Requested-With` value marks a script request: `fetch` or
/// `XMLHttpRequest`, in any ASCII case.
pub open spec fn xhr_value_ok(v: Seq<char>) -> bool {
    eq_ignore_ascii_case(v, "fetch"@) || eq_ignore_ascii_case(v, "xmlhttprequest"@)
}

/// Refuses a mutating request that lacks the `X-Requested-With` header (a
/// CSRF mitigation). `x_requested_with` is the header's value where it is
/// present and readable as text.
pub fn ensure_xhr(x_requested_with: Option<&str>) -> (r: Result<(), AppError>)
    ensures
        r is Ok <==> (match x_requested_with {
            Some(v) => xhr_value_ok(v@),
            None => false,
        }),
        r matches Err(e) ==> e is Forbidden,
{
    let ok = match x_requested_with {
        Some(v) => eq_ignore_ascii_case_exec(v, "fetch") || eq_ignore_ascii_case_exec(
            v,
            "xmlhttprequest",
        ),
        None => false,
    };
    if ok {
        Ok(())
    } else {
        Err(AppError::Forbidden)
    }
}

/// The client address of a request: the first entry of `X-Forwarded-For`,
/// trimmed, where that header is present and readable; otherwise the peer
/// address of the connection, if known.
pub fn client_ip(forwarded_for: Option<&str>, peer: Option<String>) -> (r: Option<String>)
    ensures
        forwarded_for matches Some(v) ==> (r matches Some(s) && s@ == trim(before_first(v@, ','))),
        forwarded_for is None ==> r == peer,
{
    match forwarded_for {
        Some(v) => {
            let cs = chars_of(v);
            let k = find_char(&cs, 0, cs.len(), ',');
            let (a, b) = trim_bounds(&cs, 0, k);
            proof {
                assert(cs@.subrange(0, cs@.len() as int) =~= cs@);
                assert(cs@.subrange(0, k as int) =~= cs@.take(k as int));
            }
            Some(string_from_range(&cs, a, b))
        },
        None => peer,
    }
}

/// What a request's session lookup decides. `found` is the session stored
/// under the request's token, if any; `now` the current time; `ttl` the
/// session lifetime. A missing or expired session is refused; an active one is
/// accepted, with the new expiry to store when the sliding window moves it.
/// Only for an active session is the sliding expiry computed, so only there
/// must its arithmetic stay within `i64`.
pub fn check_session(found: Option<SessionRecord>, now: i64, ttl: i64) -> (r: Result<
    (SessionRecord, Option<i64>),
    AppError,
>)
    requires
        match found {
            Some(s) => is_active(s.expires_at, now) ==> slide_fits(s.expires_at, now, ttl),
            None => true,
        },
    ensures
        match found {
            None => r matches Err(AppError::Unauthorized),
            Some(s) => if is_active(s.expires_at, now) {
                r matches Ok((t, slide)) && t == s && slide == spec_slide(s.expires_at, now, ttl)
            } else {
                r matches Err(AppError::Unauthorized)
            },
        },
{
    match found {
        None => Err(AppError::Unauthorized),
        Some(s) => {
            if s.expires_at > now {
                let slide = slide_expiry(s.expires_at, now, ttl);
                Ok((s, slide))
            } else {
                Err(AppError::Unauthorized)
            }
        },
    }
}

/// Refuses a request without a session cookie.
pub fn require_token(token: Option<String>) -> (r: Result<String, AppError>)
    ensures
        match token {
            Some(t) => r == Ok::<String, AppError>(t),
            None => r matches Err(AppError::Unauthorized),
        },
{
    match token {
        Some(t) => Ok(t),
        None => Err(AppError::Unauthorized),
    }
}

} // verus!
