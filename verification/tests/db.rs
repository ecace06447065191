use vps_monitor::db::audit::audit_cutoff;
use vps_monitor::db::sessions::{session_expiry, session_is_active, slide_expiry};
use vps_monitor::db::users::failed_login_update;
use vps_monitor::db::{now_unix, unix_from_elapsed};

#[test]
fn five_failures_freeze_for_fifteen_minutes() {
    let now = 1_700_000_000;
    let lockout = 15 * 60;
    let mut row = (0i64, None);
    for n in 1..=4 {
        row = failed_login_update(row.0, 5, now, lockout);
        assert_eq!(row, (n, None));
    }
    row = failed_login_update(row.0, 5, now, lockout);
    assert_eq!(row, (5, Some(now + 900)));
    // further failures keep it locked from their own time
    row = failed_login_update(row.0, 5, now + 10, lockout);
    assert_eq!(row, (6, Some(now + 910)));
}

#[test]
fn failure_count_is_compared_as_u32() {
    // the stored count is read as i64 and compared after `as u32`
    assert_eq!(failed_login_update((1i64 << 32) - 1, 5, 0, 60), (1i64 << 32, None));
    assert_eq!(failed_login_update(0, 0, 0, 60), (1, Some(60)));
    assert_eq!(failed_login_update(0, 1, 10, 60), (1, Some(70)));
}

#[test]
fn session_lifetimes() {
    assert_eq!(session_expiry(1000, 604800), 605800);
    assert!(session_is_active(1001, 1000));
    assert!(!session_is_active(1000, 1000));
    assert_eq!(slide_expiry(1100, 1000, 1000), Some(2000));
    assert_eq!(slide_expiry(1500, 1000, 1000), None);
    assert_eq!(slide_expiry(1499, 1000, 1000), Some(2000));
    // odd lifetimes halve toward zero
    assert_eq!(slide_expiry(1500, 1000, 1001), None);
    assert_eq!(slide_expiry(1000, 1000, -3), None);
    assert_eq!(slide_expiry(998, 1000, -3), Some(997));
}

#[test]
fn audit_retention_cutoff() {
    assert_eq!(audit_cutoff(100 * 86400, 90), 10 * 86400);
    assert_eq!(audit_cutoff(0, 0), 0);
    assert_eq!(audit_cutoff(0, 1), -86400);
}

#[test]
fn clock_conversion() {
    assert_eq!(unix_from_elapsed(None), 0);
    assert_eq!(unix_from_elapsed(Some(1_700_000_000)), 1_700_000_000);
    assert_eq!(unix_from_elapsed(Some(u64::MAX)), -1);
    let t = now_unix();
    assert!(t > 1_600_000_000);
}
