use aws_tui::text::{to_lower, to_upper, u64_to_dec, i64_to_dec, join_strings, after_last_slash, pop_last, push_char, str_contains};
use aws_tui::json::{parse_json, pretty_json, field_str, field_u64};
use aws_tui::parser::{parse_aliases, classify_command, AliasKind};
use aws_tui::session::{format_expiry, parse_iso8601_to_unix};
use aws_tui::gui::aws::quote_parameters_for_shell;

#[test]
fn lowercase_and_uppercase_use_unicode_rules() {
    assert_eq!(to_lower("ProD-DB"), "prod-db");
    assert_eq!(to_upper("eu-West-1"), "EU-WEST-1");
    assert_eq!(to_lower("ÄBC"), "äbc");
}

#[test]
fn decimal_text_of_numbers() {
    assert_eq!(u64_to_dec(0), "0");
    assert_eq!(u64_to_dec(18446744073709551615), "18446744073709551615");
    assert_eq!(i64_to_dec(-42), "-42");
    assert_eq!(i64_to_dec(7), "7");
}

#[test]
fn joining_and_splitting_text() {
    let v = vec!["a".to_string(), "b".to_string(), "c".to_string()];
    assert_eq!(join_strings(&v, ", "), "a, b, c");
    assert_eq!(join_strings(&Vec::new(), ", "), "");
    assert_eq!(after_last_slash("arn:aws:ecs:eu-west-1:1:cluster/prod"), "prod");
    assert_eq!(after_last_slash("plain"), "plain");
    assert!(str_contains("aws ssm start-session", "ssm"));
    assert!(!str_contains("aws", "ssm"));
}

#[test]
fn popping_and_pushing_characters() {
    let mut s = String::from("ab");
    pop_last(&mut s);
    assert_eq!(s, "a");
    pop_last(&mut s);
    pop_last(&mut s);
    assert_eq!(s, "");
    push_char(&mut s, 'é');
    assert_eq!(s, "é");
}

#[test]
fn json_is_parsed_and_printed() {
    let j = match parse_json("{\"Name\": \"web\", \"Count\": 3}") {
        Ok(j) => j,
        Err(_) => panic!("expected JSON"),
    };
    assert_eq!(field_str(&j, "Name"), Some("web".to_string()));
    assert_eq!(field_u64(&j, "Count"), Some(3));
    assert_eq!(field_str(&j, "Missing"), None);
    let pretty = pretty_json(&j);
    assert!(pretty.contains("\n"));
    assert!(pretty.contains("\"Name\": \"web\""));
}

#[test]
fn json_errors_are_reported() {
    match parse_json("{not json") {
        Err(e) => assert!(!e.is_empty()),
        Ok(_) => panic!("expected an error"),
    }
    assert!(parse_json("").is_err());
}

#[test]
fn alias_file_with_groups_and_kinds() {
    let content = "\n# Group: Auth Type: SSO\nalias login-dev='aws sso login --sso-session dev'\n\n# group: Databases\nalias db='aws ssm start-session --target i-123 --document-name AWS-StartPortForwardingSessionToRemoteHost --parameters {\"host\":[\"db.local\"],\"portNumber\":[\"5432\"],\"localPortNumber\":[\"15432\"]}'\n# a comment\nalias ls-all='ls -la'\nnot an alias line\n";
    let aliases = parse_aliases(content);
    assert_eq!(aliases.len(), 3);
    assert_eq!(aliases[0].name, "login-dev");
    assert_eq!(aliases[0].group, "Auth");
    match &aliases[0].kind {
        AliasKind::SsoLogin { session_name } => assert_eq!(session_name, "dev"),
        _ => panic!("expected an SSO login"),
    }
    assert_eq!(aliases[1].group, "Databases");
    match &aliases[1].kind {
        AliasKind::SsmSession { target, document, local_port, remote_port, host } => {
            assert_eq!(target, "i-123");
            assert_eq!(document.as_deref(), Some("AWS-StartPortForwardingSessionToRemoteHost"));
            assert_eq!(local_port.as_deref(), Some("15432"));
            assert_eq!(remote_port.as_deref(), Some("5432"));
            assert_eq!(host.as_deref(), Some("db.local"));
        },
        _ => panic!("expected an SSM session"),
    }
    assert_eq!(aliases[2].name, "ls-all");
    assert_eq!(aliases[2].group, "Databases");
    assert!(matches!(aliases[2].kind, AliasKind::Other));
}

#[test]
fn aliases_before_any_group_are_in_other() {
    let aliases = parse_aliases("alias a='echo hi'");
    assert_eq!(aliases.len(), 1);
    assert_eq!(aliases[0].group, "Other");
    assert_eq!(aliases[0].command, "echo hi");
    assert!(parse_aliases("").is_empty());
}

#[test]
fn commands_are_classified() {
    assert!(matches!(classify_command("aws s3 ls"), AliasKind::Other));
    match classify_command("aws sso login") {
        AliasKind::SsoLogin { session_name } => assert_eq!(session_name, ""),
        _ => panic!("expected an SSO login"),
    }
    match classify_command("aws ssm start-session --target i-9") {
        AliasKind::SsmSession { target, document, local_port, .. } => {
            assert_eq!(target, "i-9");
            assert_eq!(document, None);
            assert_eq!(local_port, None);
        },
        _ => panic!("expected an SSM session"),
    }
}

#[test]
fn expiry_text() {
    assert_eq!(format_expiry(0), "expired");
    assert_eq!(format_expiry(30), "1m");
    assert_eq!(format_expiry(59 * 60), "59m");
    assert_eq!(format_expiry(3 * 3600 + 5 * 60), "3h 5m");
    assert_eq!(format_expiry(2 * 86400 + 4 * 3600 + 59), "2d 4h");
}

#[test]
fn iso8601_timestamps() {
    assert_eq!(parse_iso8601_to_unix("1970-01-01T00:00:00Z"), Some(0));
    assert_eq!(parse_iso8601_to_unix("2024-03-01T12:30:15UTC"), Some(1709296215));
    assert_eq!(parse_iso8601_to_unix(" 2000-02-29T23:59:59+00:00 "), Some(951868799));
    assert_eq!(parse_iso8601_to_unix("2024-03-01"), None);
    assert_eq!(parse_iso8601_to_unix("1969-12-31T23:59:59Z"), None);
    assert_eq!(parse_iso8601_to_unix("20x4-03-01T12:30:15Z"), None);
}

#[test]
fn ssm_parameters_are_quoted_for_the_shell() {
    assert_eq!(
        quote_parameters_for_shell("aws ssm start-session --target i-1 --parameters {\"a\":[\"1\"]}"),
        "aws ssm start-session --target i-1 --parameters '{\"a\":[\"1\"]}'"
    );
    assert_eq!(quote_parameters_for_shell("aws s3 ls"), "aws s3 ls");
}
