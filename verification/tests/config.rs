use vps_monitor::config::{
    default_audit_retention, default_lockout_minutes, default_max_failed_logins, default_session_ttl, is_safe_bind,
    BindError, Config, IpAddr, SocketAddr,
};

fn v4(a: u8, b: u8, c: u8, d: u8) -> IpAddr {
    IpAddr::V4([a, b, c, d])
}

fn v6(s: [u16; 8]) -> IpAddr {
    IpAddr::V6(s)
}

#[test]
fn rejects_public_v4() {
    assert!(!is_safe_bind(v4(8, 8, 8, 8)));
    assert!(!is_safe_bind(v4(0, 0, 0, 0)));
}

#[test]
fn allows_loopback_and_private() {
    assert!(is_safe_bind(v4(127, 0, 0, 1)));
    assert!(is_safe_bind(v4(10, 0, 0, 5)));
    assert!(is_safe_bind(v4(192, 168, 1, 1)));
    assert!(is_safe_bind(v4(100, 64, 0, 1)));
    assert!(is_safe_bind(v6([0, 0, 0, 0, 0, 0, 0, 1])));
}

#[test]
fn bind_ranges_edges() {
    assert!(is_safe_bind(v4(172, 16, 0, 1)));
    assert!(is_safe_bind(v4(172, 31, 255, 255)));
    assert!(!is_safe_bind(v4(172, 32, 0, 1)));
    assert!(!is_safe_bind(v4(172, 15, 0, 1)));
    assert!(is_safe_bind(v4(169, 254, 1, 1)));
    assert!(!is_safe_bind(v4(100, 63, 0, 1)));
    assert!(is_safe_bind(v4(100, 127, 255, 255)));
    assert!(!is_safe_bind(v4(100, 128, 0, 0)));
    assert!(!is_safe_bind(v4(192, 169, 0, 1)));
    assert!(is_safe_bind(v6([0xfc00, 0, 0, 0, 0, 0, 0, 1])));
    assert!(is_safe_bind(v6([0xfdff, 1, 0, 0, 0, 0, 0, 1])));
    assert!(is_safe_bind(v6([0xfe80, 0, 0, 0, 0, 0, 0, 1])));
    assert!(is_safe_bind(v6([0xfebf, 0, 0, 0, 0, 0, 0, 1])));
    assert!(!is_safe_bind(v6([0xfec0, 0, 0, 0, 0, 0, 0, 1])));
    assert!(!is_safe_bind(v6([0, 0, 0, 0, 0, 0, 0, 0])));
    assert!(!is_safe_bind(v6([0x2001, 0x4860, 0, 0, 0, 0, 0, 0x8888])));
}

fn cfg(bind: &str) -> Config {
    Config {
        bind: bind.to_string(),
        db_path: "/tmp/db.sqlite".to_string(),
        session_ttl_secs: default_session_ttl(),
        audit_retention_days: default_audit_retention(),
        max_failed_logins: default_max_failed_logins(),
        lockout_minutes: default_lockout_minutes(),
        pm2_log_dirs: vec![],
        docker_socket: None,
    }
}

#[test]
fn validate_bind_outcomes() {
    let c = cfg("127.0.0.1:8443");
    assert_eq!(c.validate_bind(Some(SocketAddr { ip: v4(127, 0, 0, 1), port: 8443 })), Ok(()));
    let c = cfg("8.8.8.8:80");
    assert_eq!(
        c.validate_bind(Some(SocketAddr { ip: v4(8, 8, 8, 8), port: 80 })),
        Err(BindError::Public { ip: v4(8, 8, 8, 8), port: 80 })
    );
    let c = cfg("nonsense");
    assert_eq!(c.validate_bind(None), Err(BindError::Invalid));
}

#[test]
fn config_defaults_and_derived_values() {
    assert_eq!(default_session_ttl(), 604800);
    assert_eq!(default_audit_retention(), 90);
    assert_eq!(default_max_failed_logins(), 5);
    assert_eq!(default_lockout_minutes(), 15);
    let c = cfg("127.0.0.1:1");
    assert_eq!(c.session_ttl(), 604800);
    assert_eq!(c.lockout_secs(), 900);
}
