use aws_tui::gui::aws::{
    classify_sts_output, sts_spawn_failed, credentials_from_export, resolve_profile_for_sso_session,
    iam_profile_exists_in_credentials, read_iam_credentials_from_file, tag_target_plan, finish_tag_target,
    StsCheckResult, TagPlan,
};
use aws_tui::gui::aws_config::{parse_config, parse_credentials, merge_profiles, snapshot};

#[test]
fn identity_checks_are_classified() {
    match classify_sts_output(true, "{\"Account\": \"123\", \"Arn\": \"arn:aws:iam::123:user/me\"}", "") {
        StsCheckResult::Valid { account, arn } => {
            assert_eq!(account, "123");
            assert_eq!(arn, "arn:aws:iam::123:user/me");
        },
        _ => panic!("expected a valid identity"),
    }
    match classify_sts_output(true, "{}", "") {
        StsCheckResult::Valid { account, arn } => {
            assert_eq!(account, "unknown");
            assert_eq!(arn, "unknown");
        },
        _ => panic!("expected a valid identity"),
    }
    match classify_sts_output(true, " plain text \n", "") {
        StsCheckResult::Valid { account, arn } => {
            assert_eq!(account, "ok");
            assert_eq!(arn, "plain text");
        },
        _ => panic!("expected a valid identity"),
    }
    match classify_sts_output(false, "", "  The SSO session has EXPIRED \n") {
        StsCheckResult::Expired { error } => assert_eq!(error, "The SSO session has EXPIRED"),
        _ => panic!("expected an expired session"),
    }
    match classify_sts_output(false, "", "network down") {
        StsCheckResult::Error { error } => assert_eq!(error, "network down"),
        _ => panic!("expected an error"),
    }
    match sts_spawn_failed("no such file") {
        StsCheckResult::Error { error } => assert_eq!(error, "Failed to run aws cli: no such file"),
        _ => panic!("expected an error"),
    }
}

#[test]
fn exported_credentials_are_read() {
    let c = credentials_from_export("{\"AccessKeyId\":\"AK\",\"SecretAccessKey\":\"SK\",\"Expiration\":\"2030-01-01T00:00:00Z\"}").unwrap();
    assert_eq!(c.access_key_id, "AK");
    assert_eq!(c.secret_access_key, "SK");
    assert_eq!(c.session_token, "");
    assert_eq!(c.expiration, "2030-01-01T00:00:00Z");
    assert!(credentials_from_export("oops").is_none());
}

#[test]
fn profiles_are_found_for_sso_sessions() {
    let config = "[default]\nregion = eu-west-1\n[profile dev]\nsso_session = Corp\n[sso-session corp]\nsso_start_url = https://x\n[profile ops]\nsso_session = corp\n";
    assert_eq!(resolve_profile_for_sso_session(config, "corp"), Some("dev".to_string()));
    assert_eq!(resolve_profile_for_sso_session(config, "other"), None);
    assert_eq!(resolve_profile_for_sso_session("[default]\nsso_session=x\n", "X"), Some("default".to_string()));
}

#[test]
fn static_credentials_are_read_from_the_credentials_file() {
    let creds = "[dev]\naws_access_key_id = AKIA\naws_secret_access_key = SECRET\n[prod]\naws_access_key_id = P\n";
    assert!(iam_profile_exists_in_credentials(creds, "prod"));
    assert!(!iam_profile_exists_in_credentials(creds, "stage"));
    let c = read_iam_credentials_from_file(creds, "dev").unwrap();
    assert_eq!(c.access_key_id, "AKIA");
    assert_eq!(c.secret_access_key, "SECRET");
    assert!(read_iam_credentials_from_file(creds, "stage").is_none());
}

#[test]
fn tag_targets_are_planned_and_resolved() {
    let cmd = "aws ssm start-session --target \"tag:Name=web, Env = prod\" --region eu-west-1";
    match tag_target_plan(cmd) {
        TagPlan::Lookup { full_match, tag_spec, args } => {
            assert_eq!(full_match, "--target \"tag:Name=web,");
            assert_eq!(tag_spec, "tag:Name=web,");
            assert_eq!(args[0], "ec2");
            assert!(args.contains(&"--region".to_string()));
            assert!(args.contains(&"eu-west-1".to_string()));
            let q = args.iter().position(|a| a == "--query").unwrap();
            assert_eq!(args[q + 1], "Reservations[].Instances[?Tags[?Key=='Name' && Value=='web']] | [] | [0].InstanceId");
            assert_eq!(
                finish_tag_target(cmd, &full_match, &tag_spec, true, "i-0abc\n", ""),
                Ok("aws ssm start-session --target i-0abc Env = prod\" --region eu-west-1".to_string())
            );
            assert_eq!(
                finish_tag_target(cmd, &full_match, &tag_spec, true, "None", ""),
                Err("No running instance matched tag:Name=web,".to_string())
            );
            assert_eq!(
                finish_tag_target(cmd, &full_match, &tag_spec, false, "", " denied "),
                Err("EC2 describe-instances failed: denied".to_string())
            );
        },
        _ => panic!("expected a lookup"),
    }
    assert!(matches!(tag_target_plan("aws ssm start-session --target i-1"), TagPlan::NoTag));
    match tag_target_plan("aws ssm start-session --target tag:novalue") {
        TagPlan::Invalid(e) => assert_eq!(e, "No valid tag key=value pairs in tag:novalue"),
        _ => panic!("expected an invalid target"),
    }
}

#[test]
fn config_wins_over_credentials_when_merging() {
    let (cfg, sessions) = parse_config("[profile b]\nregion = eu-west-1\nsso_session = corp\n[default]\nregion = us-east-1\n[sso-session corp]\nsso_start_url = https://corp\nsso_region = eu-west-1\n");
    assert_eq!(cfg.len(), 2);
    assert_eq!(sessions.len(), 1);
    let creds = parse_credentials("[b]\nregion = ap-south-1\n[a]\naws_access_key_id = AK\n");
    let merged = merge_profiles(&cfg, &creds, &sessions);
    let names: Vec<&str> = merged.iter().map(|p| p.name.as_str()).collect();
    assert_eq!(names, vec!["a", "b", "default"]);
    let b = &merged[1];
    assert_eq!(b.region.as_deref(), Some("eu-west-1"));
    assert!(b.is_sso);
    assert!(!merged[0].is_sso);
}

#[test]
fn any_sso_setting_marks_a_profile_as_sso() {
    let s = snapshot(
        Some("[profile r]\nsso_region = eu-west-1\n[profile k]\nsso_account_id = 123\n[profile plain]\nregion = us-east-1\n[profile l]\nsso_session = nowhere\n"),
        None,
        None,
        None,
    );
    let names: Vec<&str> = s.profiles.iter().map(|p| p.name.as_str()).collect();
    assert_eq!(names, vec!["k", "l", "plain", "r"]);
    assert!(s.profiles[0].is_sso);
    assert!(s.profiles[1].is_sso);
    assert!(!s.profiles[2].is_sso);
    assert!(s.profiles[3].is_sso);
}

#[test]
fn a_snapshot_without_files_is_empty() {
    let s = snapshot(None, None, None, None);
    assert!(s.profiles.is_empty());
    assert!(s.sso_sessions.is_empty());
}
