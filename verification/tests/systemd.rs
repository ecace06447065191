use vps_monitor::collectors::systemd::{parse_unit_list, systemctl_list_args, validate_unit, SystemdService};
use vps_monitor::handlers::services::filter_services;

#[test]
fn validates_unit_names() {
    assert!(validate_unit("nginx.service"));
    assert!(validate_unit("docker.socket"));
    assert!(validate_unit("getty@tty1.service"));
    assert!(!validate_unit("nginx.service; rm -rf /"));
    assert!(!validate_unit("../etc/passwd"));
    assert!(!validate_unit("nginx"));
    assert!(!validate_unit(""));
}

#[test]
fn unit_types_and_lengths() {
    assert!(validate_unit("a.target"));
    assert!(validate_unit("backup.timer"));
    assert!(validate_unit("-.mount"));
    assert!(validate_unit("cups.path"));
    assert!(validate_unit("user@1000:x.y_z-w.service"));
    assert!(!validate_unit(".service"));
    assert!(!validate_unit("nginx.services"));
    assert!(!validate_unit("nginx.SERVICE"));
    assert!(!validate_unit("nginx.service\n"));
    assert!(!validate_unit("ngïnx.service"));
    let long_ok = format!("{}.service", "a".repeat(248));
    assert_eq!(long_ok.len(), 256);
    assert!(validate_unit(&long_ok));
    let too_long = format!("{}.service", "a".repeat(249));
    assert!(!validate_unit(&too_long));
}

fn row(s: &SystemdService) -> (String, String, String, String, String) {
    (s.unit.clone(), s.load.clone(), s.active.clone(), s.sub.clone(), s.description.clone())
}

#[test]
fn parses_list_units_output() {
    let out = "nginx.service  loaded    active   running A high performance web server\n\
               \n\
               cron.service loaded inactive dead\r\n   ssh.service loaded active running OpenBSD Secure Shell server   \n";
    let rows = parse_unit_list(out);
    assert_eq!(rows.len(), 3);
    // columns are padded with runs of spaces
    assert_eq!(
        row(&rows[0]),
        (
            "nginx.service".to_string(),
            "loaded".to_string(),
            "active".to_string(),
            "running".to_string(),
            "A high performance web server".to_string()
        )
    );
    assert_eq!(
        row(&rows[1]),
        (
            "cron.service".to_string(),
            "loaded".to_string(),
            "inactive".to_string(),
            "dead".to_string(),
            "".to_string()
        )
    );
    assert_eq!(rows[2].unit, "ssh.service");
    assert_eq!(rows[2].description, "OpenBSD Secure Shell server");
}

#[test]
fn parse_splits_columns_at_runs_of_whitespace() {
    let line = "a  b\tc   d    e  f";
    let rows = parse_unit_list(line);
    assert_eq!(rows.len(), 1);
    let words: Vec<&str> = line.split_whitespace().collect();
    let got = vec![
        rows[0].unit.as_str(),
        rows[0].load.as_str(),
        rows[0].active.as_str(),
        rows[0].sub.as_str(),
    ];
    assert_eq!(got, words[..4].to_vec());
    // the description keeps the inner spacing of the rest of the line
    assert_eq!(rows[0].description, "e  f");
    let rows = parse_unit_list("x.service loaded");
    assert_eq!(rows[0].load, "loaded");
    assert_eq!(rows[0].active, "");
    assert!(parse_unit_list("").is_empty());
    assert!(parse_unit_list("   \n\t\n").is_empty());
}

#[test]
fn state_filter_matches_padded_output() {
    let out = "nginx.service  loaded    active   running Web server\n\
               cron.service   loaded    inactive dead    Cron\n";
    let kept = filter_services(parse_unit_list(out), Some("active"));
    assert_eq!(kept.len(), 1);
    assert_eq!(kept[0].unit, "nginx.service");
    let kept = filter_services(parse_unit_list(out), Some("dead"));
    assert_eq!(kept.len(), 1);
    assert_eq!(kept[0].unit, "cron.service");
}

fn svc(unit: &str, active: &str, sub: &str) -> SystemdService {
    SystemdService {
        unit: unit.to_string(),
        load: "loaded".to_string(),
        active: active.to_string(),
        sub: sub.to_string(),
        description: String::new(),
    }
}

#[test]
fn filters_services_by_state() {
    let all = vec![svc("a.service", "active", "running"), svc("b.service", "inactive", "dead"), svc("c.service", "active", "exited")];
    let kept = filter_services(all, Some("Running"));
    assert_eq!(kept.len(), 1);
    assert_eq!(kept[0].unit, "a.service");

    let all = vec![svc("a.service", "active", "running"), svc("b.service", "inactive", "dead"), svc("c.service", "ACTIVE", "exited")];
    let kept = filter_services(all, Some("active"));
    let units: Vec<&str> = kept.iter().map(|s| s.unit.as_str()).collect();
    assert_eq!(units, vec!["a.service", "c.service"]);

    let all = vec![svc("a.service", "active", "running"), svc("b.service", "inactive", "dead")];
    assert_eq!(filter_services(all, None).len(), 2);
}

#[test]
fn filter_lowercases_beyond_ascii() {
    // the filter is lower-cased with Unicode rules first; the comparison itself
    // only folds ASCII
    let all = vec![svc("a.service", "ä", "x"), svc("b.service", "Ä", "x")];
    let kept = filter_services(all, Some("Ä"));
    assert_eq!(kept.len(), 1);
    assert_eq!(kept[0].unit, "a.service");
}

#[test]
fn systemctl_lists_every_service_plainly() {
    assert_eq!(
        systemctl_list_args(),
        vec!["list-units", "--type=service", "--all", "--no-pager", "--plain", "--no-legend"]
    );
}
