use aws_tui::session::{SessionManager, SessionStatus, SessionKind, Session, format_expiry, MAX_OUTPUT_LINES};

fn started(m: &mut SessionManager, name: &str, kind: SessionKind) {
    let shell = m.start_plan(name, "aws sso login --sso-session dev").unwrap();
    assert_eq!(shell, "aws sso login --sso-session dev");
    m.record_started(name, "aws sso login --sso-session dev", kind, Some(42));
}

#[test]
fn a_started_session_runs_and_cannot_start_twice() {
    let mut m = SessionManager::new();
    assert!(matches!(m.get_status("dev"), SessionStatus::Stopped));
    started(&mut m, "dev", SessionKind::Other);
    assert!(matches!(m.get_status("dev"), SessionStatus::Running));
    assert_eq!(m.get_pid("dev"), Some(42));
    assert_eq!(m.get_output("dev"), vec![">>> Starting: aws sso login --sso-session dev".to_string()]);
    assert_eq!(m.start_plan("dev", "x").unwrap_err(), "Session already active");
}

#[test]
fn stopping_a_session_with_a_process_asks_for_a_kill() {
    let mut m = SessionManager::new();
    started(&mut m, "dev", SessionKind::Other);
    assert_eq!(m.stop_session("dev"), Ok(true));
    m.record_killed("dev");
    assert!(matches!(m.get_status("dev"), SessionStatus::Stopped));
    assert_eq!(m.get_pid("dev"), None);
    assert_eq!(m.get_output("dev").last().unwrap(), ">>> Session stopped by user");
    assert_eq!(m.stop_session("nope").unwrap_err(), "Session not found");
}

#[test]
fn stopping_all_sessions_lists_the_processes_to_kill() {
    let mut m = SessionManager::new();
    started(&mut m, "a", SessionKind::Other);
    started(&mut m, "b", SessionKind::Other);
    assert_eq!(m.stop_session("b"), Ok(true));
    m.record_killed("b");
    let kill = m.stop_all();
    assert_eq!(kill, vec!["a".to_string()]);
    assert!(matches!(m.get_status("b"), SessionStatus::Stopped));
}

#[test]
fn a_failed_process_reports_its_exit_code() {
    let mut m = SessionManager::new();
    started(&mut m, "a", SessionKind::Other);
    m.record_exit("a", false, Some(2), None);
    match m.get_status("a") {
        SessionStatus::Error(e) => assert_eq!(e, "Process exited with code: 2"),
        _ => panic!("expected an error"),
    }
    assert_eq!(m.get_output("a").last().unwrap(), ">>> Process exited with code: 2");
}

#[test]
fn a_finished_process_stops_its_session() {
    let mut m = SessionManager::new();
    started(&mut m, "a", SessionKind::Other);
    m.record_exit("a", true, Some(0), None);
    assert!(matches!(m.get_status("a"), SessionStatus::Stopped));
    assert_eq!(m.get_output("a").last().unwrap(), ">>> Process exited successfully");
}

#[test]
fn an_sso_login_without_a_profile_is_connected_but_unwatched() {
    let mut m = SessionManager::new();
    started(&mut m, "dev", SessionKind::SsoLogin { session_name: "dev".to_string() });
    let watch = m.record_exit("dev", true, Some(0), Some("[profile other]\nsso_session = prod\n"));
    assert_eq!(watch, None);
    assert!(matches!(m.get_status("dev"), SessionStatus::Connected));
    let out = m.get_output("dev");
    assert_eq!(out[out.len() - 3], ">>> SSO login succeeded (session: dev)");
    assert_eq!(out[out.len() - 1], ">>> Cannot monitor session liveness without a profile");
}

#[test]
fn an_sso_login_with_a_profile_is_watched() {
    let mut m = SessionManager::new();
    started(&mut m, "dev", SessionKind::SsoLogin { session_name: "dev".to_string() });
    let watch = m.record_exit("dev", true, Some(0), Some("[profile work]\nsso_session = dev\n"));
    assert_eq!(watch, Some("work".to_string()));
    assert_eq!(m.get_sso_profile("dev"), Some("work".to_string()));
}

#[test]
fn session_output_keeps_its_last_lines() {
    let mut s = Session::new(SessionKind::Other);
    for i in 0..(MAX_OUTPUT_LINES + 5) {
        s.push_output(format!("line {}", i));
    }
    assert_eq!(s.output_lines.len(), MAX_OUTPUT_LINES);
    assert_eq!(s.output_lines[0], "line 5");
    assert_eq!(s.output_lines[MAX_OUTPUT_LINES - 1], format!("line {}", MAX_OUTPUT_LINES + 4));
    assert!(!s.is_active());
}

#[test]
fn output_of_unknown_sessions_is_dropped() {
    let mut m = SessionManager::new();
    m.append_output("ghost", "x".to_string());
    assert!(m.get_output("ghost").is_empty());
    assert_eq!(format_expiry(3600), "1h 0m");
}
