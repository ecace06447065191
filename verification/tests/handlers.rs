use vps_monitor::auth::middleware::AuthUser;
use vps_monitor::collectors::system::SortBy;
use vps_monitor::error::AppError;
use vps_monitor::handlers::audit::{audit_limit, AuditQuery};
use vps_monitor::handlers::logs::{
    docker_log_options, docker_log_step, file_tail_step, journal_log_step, RelayAction, RelayEvent,
    docker_log_request, journal_log_request, journalctl_args, log_target, pm2_log_request, tail_start, validate_pm2_name,
    view_logs_audit, TailCursor, TailRead, TAIL_MAX_CHUNK,
};
use vps_monitor::handlers::processes::{process_query, ProcQuery};

#[test]
fn audit_limits() {
    assert_eq!(audit_limit(&AuditQuery { limit: None }), 100);
    assert_eq!(audit_limit(&AuditQuery { limit: Some(0) }), 1);
    assert_eq!(audit_limit(&AuditQuery { limit: Some(-5) }), 1);
    assert_eq!(audit_limit(&AuditQuery { limit: Some(50) }), 50);
    assert_eq!(audit_limit(&AuditQuery { limit: Some(5000) }), 1000);
}

#[test]
fn process_queries() {
    assert_eq!(process_query(&ProcQuery { sort: None, limit: None }), (SortBy::Cpu, 20));
    assert_eq!(process_query(&ProcQuery { sort: Some("ram".into()), limit: Some(0) }), (SortBy::Mem, 1));
    assert_eq!(process_query(&ProcQuery { sort: Some("x".into()), limit: Some(500) }), (SortBy::Cpu, 200));
    assert_eq!(process_query(&ProcQuery { sort: Some("memory".into()), limit: Some(7) }), (SortBy::Mem, 7));
}

#[test]
fn pm2_names() {
    assert!(validate_pm2_name("api-server_1.prod"));
    assert!(!validate_pm2_name(""));
    assert!(!validate_pm2_name("a b"));
    assert!(!validate_pm2_name("../x"));
    assert!(validate_pm2_name(&"a".repeat(128)));
    assert!(!validate_pm2_name(&"a".repeat(129)));
}

#[test]
fn log_requests() {
    let r = pm2_log_request("bad name", Some(Some("/x".into())));
    assert!(matches!(r, Err(AppError::BadRequest(ref m)) if m == "invalid pm2 name"));
    assert!(matches!(pm2_log_request("api", None), Err(AppError::NotFound)));
    let r = pm2_log_request("api", Some(None));
    assert!(matches!(r, Err(AppError::BadRequest(ref m)) if m == "pm2 app has no out_log_path; check pm2 describe"));
    assert_eq!(pm2_log_request("api", Some(Some("/home/u/.pm2/logs/api-out.log".into()))).ok(),
        Some("/home/u/.pm2/logs/api-out.log".to_string()));

    let r = docker_log_request("a/b", true);
    assert!(matches!(r, Err(AppError::BadRequest(ref m)) if m == "invalid container id"));
    let r = docker_log_request("abc", false);
    assert!(matches!(r, Err(AppError::BadRequest(ref m)) if m == "docker not available"));
    assert!(docker_log_request("abc", true).is_ok());

    let r = journal_log_request("nginx");
    assert!(matches!(r, Err(AppError::BadRequest(ref m)) if m == "invalid unit name"));
    assert!(journal_log_request("nginx.service").is_ok());
}

#[test]
fn log_views_are_audited_with_target() {
    let t = log_target("journal:", "nginx.service");
    assert_eq!(t, "journal:nginx.service");
    assert_eq!(log_target("pm2:", "api"), "pm2:api");
    let u = AuthUser { user_id: 1, username: "admin".into(), token: "t".into(), ip: Some("::1".into()) };
    let w = view_logs_audit(&u, &t);
    assert_eq!(w.user_id, Some(1));
    assert_eq!(w.username, Some("admin"));
    assert_eq!(w.ip, Some("::1"));
    assert_eq!(w.action, "view_logs");
    assert_eq!(w.target, Some("journal:nginx.service"));
    assert_eq!(w.detail, None);
}

#[test]
fn tailing_cursor() {
    assert_eq!(tail_start(100), 0);
    assert_eq!(tail_start(8192), 0);
    assert_eq!(tail_start(10000), 10000 - 8192);
    let mut c = TailCursor::new(100);
    assert_eq!(c.pos, 100);
    assert_eq!(c.poll(100), None);
    let rd = c.poll(150).unwrap();
    assert_eq!(rd, TailRead { from: 100, len: 50 });
    c.advance(rd, 30);
    assert_eq!(c.pos, 130);
    // truncated: start over
    let rd = c.poll(10).unwrap();
    assert_eq!(c.pos, 0);
    assert_eq!(rd, TailRead { from: 0, len: 10 });
    c.advance(rd, 10);
    // a big jump is read in chunks of at most 1 MiB
    let rd = c.poll(10 + 3 * TAIL_MAX_CHUNK).unwrap();
    assert_eq!(rd, TailRead { from: 10, len: TAIL_MAX_CHUNK });
    c.advance(rd, TAIL_MAX_CHUNK);
    assert_eq!(c.pos, 10 + TAIL_MAX_CHUNK);
}

#[test]
fn journal_arguments_keep_the_unit_whole() {
    assert_eq!(
        journalctl_args("nginx.service"),
        vec!["-fu", "nginx.service", "--no-pager", "--output=short-iso", "-n", "200"]
    );
}

#[test]
fn docker_logs_follow_both_streams() {
    let o = docker_log_options();
    assert!(o.follow && o.stdout && o.stderr && !o.timestamps);
    assert_eq!(o.tail, "200");
}

#[test]
fn docker_relay_steps() {
    assert!(matches!(docker_log_step(RelayEvent::Data("line\n".into())), RelayAction::Send(ref t) if t == "line\n"));
    assert!(matches!(docker_log_step(RelayEvent::Data("".into())), RelayAction::Continue));
    assert!(matches!(
        docker_log_step(RelayEvent::SourceError("boom".into())),
        RelayAction::SendThenStop(ref t) if t == "\n[stream error] boom\n"
    ));
    assert!(matches!(docker_log_step(RelayEvent::SourceEnd), RelayAction::Stop));
    assert!(matches!(docker_log_step(RelayEvent::ClientGone), RelayAction::Stop));
    assert!(matches!(docker_log_step(RelayEvent::SendFailed), RelayAction::Stop));
    assert!(matches!(docker_log_step(RelayEvent::ClientOther), RelayAction::Continue));
}

#[test]
fn journal_relay_steps() {
    assert!(matches!(journal_log_step(RelayEvent::Data("a b".into())), RelayAction::Send(ref t) if t == "a b\n"));
    assert!(matches!(journal_log_step(RelayEvent::Data("".into())), RelayAction::Send(ref t) if t == "\n"));
    assert!(matches!(journal_log_step(RelayEvent::SourceError("io".into())), RelayAction::Fail));
    assert!(matches!(journal_log_step(RelayEvent::SourceEnd), RelayAction::Stop));
    assert!(matches!(journal_log_step(RelayEvent::ClientGone), RelayAction::Stop));
    assert!(matches!(journal_log_step(RelayEvent::SendFailed), RelayAction::Stop));
    assert!(matches!(journal_log_step(RelayEvent::ClientOther), RelayAction::Continue));
}

#[test]
fn file_tail_relay_steps() {
    assert!(matches!(file_tail_step(RelayEvent::Data("x".into())), RelayAction::Send(ref t) if t == "x"));
    assert!(matches!(file_tail_step(RelayEvent::Data("".into())), RelayAction::Continue));
    assert!(matches!(file_tail_step(RelayEvent::SourceUnavailable), RelayAction::Continue));
    assert!(matches!(file_tail_step(RelayEvent::SourceEnd), RelayAction::Continue));
    assert!(matches!(file_tail_step(RelayEvent::SourceError("io".into())), RelayAction::Fail));
    assert!(matches!(file_tail_step(RelayEvent::ClientGone), RelayAction::Stop));
    assert!(matches!(file_tail_step(RelayEvent::SendFailed), RelayAction::Stop));
}
