use aws_tui::gui::parser::{parse, classify, extract_target, extract_profile, extract_region, extract_sso_session};
use aws_tui::gui::model::AliasKind;
use aws_tui::gui::sessions::{SessionManager, output_event, status_event, spawn_error};
use aws_tui::gui::commands::{aws_args, aws_result, list_clusters_args, completion_lines};

#[test]
fn desktop_alias_files_carry_groups_subgroups_and_flags() {
    let content = "# Group: Auth Type: IAM\nalias key='aws sts get-caller-identity --profile ops'\n# group: Hosts\nalias box='aws ssm start-session --target \"tag:Name=box\" --region eu-west-1 --profile dev --document-name AWS-StartInteractiveCommand --parameters {\"host\":[\"h\"],\"localPortNumber\":[\"1\"]}'\nalias sso='aws sso login --sso-session corp'\n";
    let v = parse(content);
    assert_eq!(v.len(), 3);
    assert!(matches!(v[0].kind, AliasKind::IamProfile));
    assert_eq!(v[0].group.as_deref(), Some("Auth"));
    assert_eq!(v[0].subgroup.as_deref(), Some("IAM"));
    assert_eq!(v[0].profile.as_deref(), Some("ops"));
    assert!(matches!(v[1].kind, AliasKind::SsmSession));
    assert_eq!(v[1].group.as_deref(), Some("Hosts"));
    assert_eq!(v[1].subgroup, None);
    assert_eq!(v[1].target.as_deref(), Some("tag:Name=box"));
    assert_eq!(v[1].region.as_deref(), Some("eu-west-1"));
    assert_eq!(v[1].ssm_document.as_deref(), Some("AWS-StartInteractiveCommand"));
    assert_eq!(v[1].ssm_host.as_deref(), Some("h"));
    assert_eq!(v[1].ssm_local_port.as_deref(), Some("1"));
    assert_eq!(v[1].ssm_remote_port, None);
    assert!(matches!(v[2].kind, AliasKind::SsoLogin));
    assert_eq!(v[2].sso_session_name.as_deref(), Some("corp"));
    assert_eq!(v[2].target, None);
}

#[test]
fn flags_are_read_from_commands() {
    assert!(matches!(classify("aws sso login"), AliasKind::SsoLogin));
    assert!(matches!(classify("ls"), AliasKind::Other));
    assert_eq!(extract_target("x --target i-1 y"), Some("i-1".to_string()));
    assert_eq!(extract_profile("x --profile"), None);
    assert_eq!(extract_region("--region  us-east-2"), Some("us-east-2".to_string()));
    assert_eq!(extract_sso_session("aws sso login"), None);
}

#[test]
fn desktop_sessions_start_once_and_stop() {
    let mut m = SessionManager::new();
    assert!(m.start_check("a").is_none());
    m.record_started("a", Some(5), "2024-01-01T00:00:00Z".to_string());
    assert!(m.start_check("a").is_some());
    m.push_line("a", "hello");
    assert_eq!(m.output_lines("a").last().unwrap(), "hello");
    assert!(m.stop("a"));
    assert!(!m.stop("b"));
    assert_eq!(output_event("a"), "session://a/output");
    assert_eq!(status_event("a"), "session://a/status");
    assert_eq!(spawn_error("denied"), "failed to spawn: denied");
}

#[test]
fn aws_invocations() {
    let args = aws_args(vec!["ec2".to_string(), "describe-instances".to_string()], &Some("dev".to_string()), &None);
    assert_eq!(args, vec!["ec2", "describe-instances", "--profile", "dev", "--output", "json"]);
    assert_eq!(list_clusters_args(&None), vec!["ecs", "list-clusters", "--max-results", "100"]);
    assert!(aws_result(true, "[]", "").is_ok());
    match aws_result(false, "", " bad ") {
        Err(e) => assert_eq!(e, "bad"),
        Ok(_) => panic!("expected an error"),
    }
    assert_eq!(completion_lines("a\n\nb\n"), vec!["a".to_string(), "b".to_string()]);
}
