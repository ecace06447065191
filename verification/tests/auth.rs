use vps_monitor::db::users::failed_login_update;
use vps_monitor::auth::middleware::{check_session, client_ip, ensure_xhr, require_token, AuthUser};
use vps_monitor::auth::password::{check_new_password, hash, hash_with_random, PasswordError};
use vps_monitor::auth::session::{logout_cookie, new_token, session_cookie, token_from_random, COOKIE_NAME};
use vps_monitor::db::sessions::SessionRecord;
use vps_monitor::db::users::UserAuth;
use vps_monitor::error::AppError;
use vps_monitor::handlers::auth::{
    check_credentials, login_attempt, login_effects, login_stage, logout_audit, LoginRequest, LoginStage,
};

use argon2::password_hash::{PasswordHasher, SaltString};
use argon2::{Algorithm, Argon2, Params, Version};

#[test]
fn xhr_header_required() {
    assert!(ensure_xhr(Some("fetch")).is_ok());
    assert!(ensure_xhr(Some("Fetch")).is_ok());
    assert!(ensure_xhr(Some("XMLHttpRequest")).is_ok());
    assert!(ensure_xhr(Some("xmlhttprequest")).is_ok());
    assert!(matches!(ensure_xhr(Some("fetch ")), Err(AppError::Forbidden)));
    assert!(matches!(ensure_xhr(Some("")), Err(AppError::Forbidden)));
    assert!(matches!(ensure_xhr(None), Err(AppError::Forbidden)));
}

#[test]
fn client_ip_prefers_forwarded_for() {
    assert_eq!(client_ip(Some(" 1.2.3.4 , 5.6.7.8"), Some("9.9.9.9".into())), Some("1.2.3.4".to_string()));
    assert_eq!(client_ip(Some("10.0.0.1"), None), Some("10.0.0.1".to_string()));
    assert_eq!(client_ip(Some(""), Some("9.9.9.9".into())), Some("".to_string()));
    assert_eq!(client_ip(None, Some("127.0.0.1".into())), Some("127.0.0.1".to_string()));
    assert_eq!(client_ip(None, None), None);
}

fn session(expires_at: i64) -> SessionRecord {
    SessionRecord { user_id: 7, username: "admin".into(), expires_at }
}

#[test]
fn session_check_and_sliding() {
    let ttl = 604800;
    assert!(matches!(check_session(None, 1000, ttl), Err(AppError::Unauthorized)));
    assert!(matches!(check_session(Some(session(1000)), 1000, ttl), Err(AppError::Unauthorized)));
    assert!(matches!(check_session(Some(session(999)), 1000, ttl), Err(AppError::Unauthorized)));
    // plenty of time left: no slide
    let (s, slide) = check_session(Some(session(1000 + 400000)), 1000, ttl).ok().unwrap();
    assert_eq!(s.user_id, 7);
    assert_eq!(slide, None);
    // less than half the lifetime left: slide to a full lifetime from now
    let (_, slide) = check_session(Some(session(1000 + 302399)), 1000, ttl).ok().unwrap();
    assert_eq!(slide, Some(1000 + ttl));
    // exactly half left: no slide
    let (_, slide) = check_session(Some(session(1000 + 302400)), 1000, ttl).ok().unwrap();
    assert_eq!(slide, None);
}

#[test]
fn expired_session_is_refused_whatever_its_values() {
    // no sliding arithmetic is done for an expired session
    assert!(matches!(check_session(Some(session(i64::MIN)), i64::MAX, i64::MAX), Err(AppError::Unauthorized)));
    assert!(matches!(check_session(Some(session(0)), i64::MAX, i64::MIN), Err(AppError::Unauthorized)));
}

#[test]
fn token_is_required() {
    assert!(matches!(require_token(None), Err(AppError::Unauthorized)));
    assert_eq!(require_token(Some("abc".into())).ok(), Some("abc".to_string()));
}

#[test]
fn tokens_are_64_hex_chars_and_fresh() {
    let a = new_token().expect("the random source works here");
    let b = new_token().expect("the random source works here");
    assert_eq!(a.len(), 64);
    assert!(a.chars().all(|c| c.is_ascii_digit() || ('a'..='f').contains(&c)));
    assert_ne!(a, b);
    assert_eq!(COOKIE_NAME, "vps_monitor_session");
}

#[test]
fn new_password_rules() {
    assert_eq!(check_new_password("secret12", "secret12"), Ok(()));
    assert_eq!(check_new_password("secret12", "secret13"), Err(PasswordError::Mismatch));
    assert_eq!(check_new_password("short", "short"), Err(PasswordError::TooShort));
    assert_eq!(check_new_password("short", "other"), Err(PasswordError::Mismatch));
    // length is counted in bytes
    assert_eq!(check_new_password("ääää", "ääää"), Ok(()));
}

fn user(locked_until: Option<i64>) -> Option<UserAuth> {
    Some(UserAuth {
        id: 3,
        username: "admin".into(),
        password_hash: "$argon2id$...".into(),
        failed_count: 0,
        locked_until,
    })
}

#[test]
fn missing_credentials_rejected() {
    let r = check_credentials(&LoginRequest { username: "".into(), password: "x".into() });
    assert!(matches!(r, Err(AppError::BadRequest(ref m)) if m == "missing credentials"));
    let r = check_credentials(&LoginRequest { username: "a".into(), password: "".into() });
    assert!(matches!(r, Err(AppError::BadRequest(_))));
    assert!(check_credentials(&LoginRequest { username: "a".into(), password: "b".into() }).is_ok());
}

#[test]
fn login_stages() {
    assert_eq!(login_stage(&None, 100), LoginStage::UnknownUser);
    assert_eq!(login_stage(&user(None), 100), LoginStage::CheckPassword);
    assert_eq!(login_stage(&user(Some(100)), 100), LoginStage::CheckPassword);
    assert_eq!(login_stage(&user(Some(1000)), 100), LoginStage::Locked { remaining_secs: 900 });
    assert_eq!(
        login_stage(&user(Some(i64::MAX)), i64::MIN),
        LoginStage::Locked { remaining_secs: u64::MAX }
    );
}

#[test]
fn login_unknown_user() {
    let u = None;
    let e = login_effects("mallory", "1.2.3.4", &u, 100, true);
    assert!(!e.record_failure && !e.reset_failures && !e.open_session);
    assert_eq!(e.audit.user_id, None);
    assert_eq!(e.audit.username, Some("mallory"));
    assert_eq!(e.audit.ip, Some("1.2.3.4"));
    assert_eq!(e.audit.action, "login_fail");
    assert_eq!(e.audit.detail, Some("unknown user"));
    assert!(matches!(e.result, Err(AppError::BadCredentials)));
}

#[test]
fn login_locked_even_with_right_password() {
    let u = user(Some(1000));
    for ok in [true, false] {
        let e = login_effects("admin", "1.2.3.4", &u, 100, ok);
        assert!(!e.record_failure && !e.reset_failures && !e.open_session);
        assert_eq!(e.audit.user_id, Some(3));
        assert_eq!(e.audit.action, "login_locked");
        assert_eq!(e.audit.detail, None);
        assert!(matches!(e.result, Err(AppError::AccountLocked(900))));
    }
}

#[test]
fn login_bad_password_and_success() {
    let u = user(Some(50));
    let e = login_effects("admin", "1.2.3.4", &u, 100, false);
    assert!(e.record_failure && !e.reset_failures && !e.open_session);
    assert_eq!(e.audit.action, "login_fail");
    assert_eq!(e.audit.detail, Some("bad password"));
    assert!(matches!(e.result, Err(AppError::BadCredentials)));

    let e = login_effects("admin", "1.2.3.4", &u, 100, true);
    assert!(!e.record_failure && e.reset_failures && e.open_session);
    assert_eq!(e.audit.username, Some("admin"));
    assert_eq!(e.audit.action, "login_ok");
    assert!(e.result.is_ok());
}

#[test]
fn logout_is_audited() {
    let u = AuthUser { user_id: 3, username: "admin".into(), token: "t".into(), ip: Some("1.2.3.4".into()) };
    let w = logout_audit(&u);
    assert_eq!(w.user_id, Some(3));
    assert_eq!(w.username, Some("admin"));
    assert_eq!(w.ip, Some("1.2.3.4"));
    assert_eq!(w.action, "logout");
    assert_eq!(w.target, None);
    let u = AuthUser { user_id: 3, username: "admin".into(), token: "t".into(), ip: None };
    assert_eq!(logout_audit(&u).ip, None);
}

#[test]
fn five_bad_passwords_then_locked_even_with_right_one() {
    let now = 1_700_000_000;
    let mut u = UserAuth {
        id: 1,
        username: "admin".into(),
        password_hash: "h".into(),
        failed_count: 0,
        locked_until: None,
    };
    let mut count: i64 = 0;
    for _ in 0..5 {
        let cell = Some(u);
        let e = login_effects("admin", "127.0.0.1", &cell, now, false);
        assert!(e.record_failure);
        assert!(matches!(e.result, Err(AppError::BadCredentials)));
        u = cell.unwrap();
        let (c, lock) = failed_login_update(count, 5, now, 900);
        count = c;
        u.failed_count = c as u32;
        u.locked_until = lock;
    }
    assert_eq!(u.locked_until, Some(now + 900));
    let cell = Some(u);
    let e = login_effects("admin", "127.0.0.1", &cell, now + 899, true);
    assert!(!e.open_session);
    assert!(matches!(e.result, Err(AppError::AccountLocked(1))));
    let e = login_effects("admin", "127.0.0.1", &cell, now + 900, true);
    assert!(e.open_session);
    assert!(e.result.is_ok());
}

/// An Argon2id hash of `password` in PHC form, at the smallest cost.
fn cheap_hash(password: &str) -> String {
    let params = Params::new(8, 1, 1, None).unwrap();
    let hasher = Argon2::new(Algorithm::Argon2id, Version::V0x13, params);
    let salt = SaltString::from_b64("c29tZXNhbHRzb21lc2FsdA").unwrap();
    hasher.hash_password(password.as_bytes(), &salt).unwrap().to_string()
}

fn user_with_hash(hash: &str, locked_until: Option<i64>) -> Option<UserAuth> {
    Some(UserAuth {
        id: 3,
        username: "admin".into(),
        password_hash: hash.into(),
        failed_count: 0,
        locked_until,
    })
}

#[test]
fn login_attempt_checks_the_stored_hash() {
    let hash = cheap_hash("correct horse");
    let dummy = cheap_hash("dummy password");
    let u = user_with_hash(&hash, None);

    let e = login_attempt("admin", "correct horse", "1.2.3.4", &u, 100, &dummy);
    assert!(e.open_session && e.reset_failures && !e.record_failure);
    assert_eq!(e.audit.action, "login_ok");
    assert_eq!(e.audit.ip, Some("1.2.3.4"));
    assert!(e.result.is_ok());

    let e = login_attempt("admin", "correct horse ", "1.2.3.4", &u, 100, &dummy);
    assert!(!e.open_session && !e.reset_failures && e.record_failure);
    assert_eq!(e.audit.detail, Some("bad password"));
    assert!(matches!(e.result, Err(AppError::BadCredentials)));

    // the stored hash is not itself a password
    let e = login_attempt("admin", &hash, "1.2.3.4", &u, 100, &dummy);
    assert!(!e.open_session && e.record_failure);
}

#[test]
fn login_attempt_with_malformed_hash_never_succeeds() {
    let u = user_with_hash("not a hash", None);
    let e = login_attempt("admin", "not a hash", "1.2.3.4", &u, 100, "also not a hash");
    assert!(!e.open_session && e.record_failure);
    assert!(matches!(e.result, Err(AppError::BadCredentials)));
}

#[test]
fn login_attempt_unknown_user_ignores_the_dummy_check() {
    let dummy = cheap_hash("dummy password");
    let e = login_attempt("mallory", "dummy password", "1.2.3.4", &None, 100, &dummy);
    assert!(!e.open_session && !e.record_failure && !e.reset_failures);
    assert_eq!(e.audit.detail, Some("unknown user"));
    assert!(matches!(e.result, Err(AppError::BadCredentials)));
}

#[test]
fn login_attempt_locked_refuses_the_right_password() {
    let hash = cheap_hash("correct horse");
    let dummy = cheap_hash("dummy password");
    let u = user_with_hash(&hash, Some(1000));
    let e = login_attempt("admin", "correct horse", "1.2.3.4", &u, 100, &dummy);
    assert!(!e.open_session && !e.record_failure);
    assert_eq!(e.audit.action, "login_locked");
    assert!(matches!(e.result, Err(AppError::AccountLocked(900))));
    // once the lock has passed, the same password opens a session
    let e = login_attempt("admin", "correct horse", "1.2.3.4", &u, 1000, &dummy);
    assert!(e.open_session);
}

#[test]
fn new_password_hash_logs_in() {
    let h = hash("correct horse").expect("the random source works here");
    assert!(h.starts_with("$argon2id$v=19$m=19456,t=2,p=1$"));
    // a fresh salt each time
    let h2 = hash("correct horse").expect("the random source works here");
    assert_ne!(h, h2);
    let u = user_with_hash(&h, None);
    let e = login_attempt("admin", "correct horse", "1.2.3.4", &u, 100, &h2);
    assert!(e.open_session && e.result.is_ok());
    let e = login_attempt("admin", "Correct horse", "1.2.3.4", &u, 100, &h2);
    assert!(!e.open_session && e.record_failure);
}

#[test]
fn token_is_the_hex_of_the_random_bytes() {
    assert_eq!(token_from_random(&[0xab; 32]), "ab".repeat(32));
    let mut b = [0u8; 32];
    b[0] = 0x01;
    b[31] = 0xf0;
    let t = token_from_random(&b);
    assert_eq!(t, format!("01{}f0", "00".repeat(30)));
}

#[test]
fn hash_uses_the_first_random_bytes_as_salt() {
    let mut r = [7u8; 32];
    r[20] = 9; // beyond the salt
    let h = hash_with_random("correct horse", &r).expect("argon2 accepts these costs");
    // 16 bytes of 7, in unpadded base64
    assert!(h.starts_with("$argon2id$v=19$m=19456,t=2,p=1$BwcHBwcHBwcHBwcHBwcHBw$"));
    assert_eq!(hash_with_random("correct horse", &[7u8; 32]), Some(h.clone()));
    let u = user_with_hash(&h, None);
    let e = login_attempt("admin", "correct horse", "1.2.3.4", &u, 100, &h);
    assert!(e.open_session);
}

#[test]
fn session_and_logout_cookies() {
    let c = session_cookie("tok".into(), 604800);
    assert_eq!(c.name, COOKIE_NAME);
    assert_eq!(c.value, "tok");
    assert_eq!(c.path, "/");
    assert!(c.http_only && c.same_site_strict && !c.secure);
    assert_eq!(c.max_age_secs, 604800);
    let c = logout_cookie();
    assert_eq!(c.name, COOKIE_NAME);
    assert_eq!(c.value, "");
    assert_eq!(c.path, "/");
    assert_eq!(c.max_age_secs, 0);
}
