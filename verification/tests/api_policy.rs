use smos::api::{
    access_decision, access_status, audit_limit, extract_token, history_log_file, is_public_api_path,
    log_tail_line_count, process_audit_action, process_error_status, resolve_log_source, Access, LogTarget,
};
use smos::config::LogSource;
use smos::processes::{ProcessAction, ProcessError};

#[test]
fn token_headers() {
    assert_eq!(extract_token(Some("abc"), Some("sess"), Some("Bearer zzz")).as_deref(), Some("abc"));
    assert_eq!(extract_token(None, Some("sess"), Some("Bearer zzz")).as_deref(), Some("sess"));
    assert_eq!(extract_token(None, None, Some("  Bearer zzz  ")).as_deref(), Some("zzz"));
    assert_eq!(extract_token(None, None, Some("raw-token")).as_deref(), Some("raw-token"));
    assert_eq!(extract_token(None, None, Some("Bearer")).as_deref(), Some("Bearer"));
    assert_eq!(extract_token(None, None, None), None);
}

#[test]
fn setup_required_blocks_metrics() {
    // GET /api/metrics before onboarding: not public, setup required.
    let d = access_decision(is_public_api_path("/metrics"), true, false, None, None);
    assert_eq!(d, Access::Forbidden);
    assert_eq!(access_status(d), 403);
}

#[test]
fn api_routes_need_a_session_or_the_token() {
    assert!(is_public_api_path("/health"));
    assert!(is_public_api_path("/auth/status"));
    assert!(is_public_api_path("/auth/setup"));
    assert!(is_public_api_path("/auth/login"));
    assert!(is_public_api_path("/auth/login/totp"));
    assert!(is_public_api_path("/auth/logout"));
    assert!(!is_public_api_path("/auth/me"));
    assert!(!is_public_api_path("/config"));
    assert_eq!(access_decision(true, true, false, None, None), Access::Allow);
    assert_eq!(access_decision(false, false, false, None, None), Access::Unauthorized);
    assert_eq!(access_status(Access::Unauthorized), 401);
    assert_eq!(access_decision(false, false, true, None, None), Access::Allow);
    assert_eq!(access_decision(false, false, false, Some("t"), Some("t")), Access::Allow);
    assert_eq!(access_decision(false, false, false, Some("t"), Some("u")), Access::Unauthorized);
    assert_eq!(access_decision(false, false, false, None, Some("t")), Access::Unauthorized);
}

#[test]
fn query_defaults() {
    assert_eq!(log_tail_line_count(None, 200), 200);
    assert_eq!(log_tail_line_count(Some(0), 200), 1);
    assert_eq!(log_tail_line_count(Some(60_000), 200), 50_000);
    assert_eq!(audit_limit(None), 100);
    assert_eq!(audit_limit(Some(5)), 5);
    assert_eq!(audit_limit(Some(5000)), 1000);
}

#[test]
fn log_source_resolution() {
    let sources = vec![
        LogSource { id: "nginx".into(), label: "n".into(), path: "/a".into() },
        LogSource { id: "nginx".into(), label: "n2".into(), path: "/b".into() },
    ];
    assert!(matches!(resolve_log_source(&sources, "smos-service"), LogTarget::Service));
    match resolve_log_source(&sources, "nginx") {
        LogTarget::File(p) => assert_eq!(p, "/a"),
        other => panic!("unexpected {other:?}"),
    }
    assert!(matches!(resolve_log_source(&sources, "x"), LogTarget::Unknown));
    match resolve_log_source(&sources, "history:smos.log.2024-05-01") {
        LogTarget::History(n) => assert_eq!(n, "smos.log.2024-05-01"),
        other => panic!("unexpected {other:?}"),
    }
    assert!(matches!(resolve_log_source(&sources, "history:smos.log./../secret"), LogTarget::Unknown));
    assert!(matches!(resolve_log_source(&sources, "history:other.log"), LogTarget::Unknown));
    assert_eq!(history_log_file("history:smos.log").as_deref(), Some("smos.log"));
    assert_eq!(history_log_file("history:smos.log.x.tmp"), None);
}

#[test]
fn process_error_codes_and_names() {
    assert_eq!(process_error_status(&ProcessError::NotFound(1)), 404);
    assert_eq!(process_error_status(&ProcessError::SelfProcess(1)), 400);
    assert_eq!(
        process_error_status(&ProcessError::ActionFailed { pid: 1, message: "m".into() }),
        403
    );
    assert_eq!(process_audit_action(ProcessAction::Kill), "process.kill");
    assert_eq!(process_audit_action(ProcessAction::Terminate), "process.terminate");
}
