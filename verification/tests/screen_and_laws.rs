use aws_tui::app::{App, AppTab, InputMode};
use aws_tui::containers::{ContainersFocus, ContainersState, EcsCluster, EcsService, FetchResult};
use aws_tui::events::{handle_key_event, key_within_limits, KeyAction, KeyCode, KeyEvent};
use aws_tui::gui::model::AliasKind as DesktopKind;
use aws_tui::gui::parser::read_aliases;
use aws_tui::instance_info::parse_instances;
use aws_tui::instances::InstancesState;
use aws_tui::parser::{Alias, AliasKind};
use aws_tui::screen::{
    ellipsize, error_lines, footer_hints, format_tag_target, instance_list_view, line_tone, output_hint, resource_tone,
    session_rows, session_tab_label, ssm_panel_size, ssm_status_line, status_label, status_mark, InstanceListView,
    KindHeading, ListRow, Tone,
};
use aws_tui::session::SessionStatus;

fn alias(name: &str, command: &str, kind: AliasKind, group: &str) -> Alias {
    Alias { name: name.to_string(), command: command.to_string(), kind, group: group.to_string() }
}

fn forward(target: &str, port: &str) -> AliasKind {
    AliasKind::SsmSession {
        target: target.to_string(),
        document: None,
        local_port: Some(port.to_string()),
        remote_port: Some("5432".to_string()),
        host: None,
    }
}

fn app() -> App {
    App::new(
        vec![
            alias("web", "ssh web", AliasKind::Other, "Hosts"),
            alias("db-prod", "aws ssm start-session --target tag:Env=prod,Role=db", forward("tag:Env=prod,Role=db", "6432"), "Databases"),
            alias("db-dev", "aws ssm start-session --target i-2", forward("i-2", "7432"), "Databases"),
        ],
        "aliases.sh".to_string(),
        0,
    )
}

fn key(code: KeyCode) -> KeyEvent {
    KeyEvent { code, control: false, shift: false }
}

fn press(a: &mut App, k: KeyEvent) -> KeyAction {
    assert!(key_within_limits(a, &k));
    handle_key_event(a, k, 120, 40, 5000)
}

#[test]
fn status_marks_and_labels() {
    assert_eq!(status_mark(&SessionStatus::Stopped, "⠋"), ("·".to_string(), Tone::Faint));
    assert_eq!(status_mark(&SessionStatus::Starting, "⠋"), ("⠋".to_string(), Tone::Warn));
    assert_eq!(status_mark(&SessionStatus::Connected, "⠋"), ("●".to_string(), Tone::Linked));
    assert_eq!(status_mark(&SessionStatus::Error("x".to_string()), "⠋"), ("×".to_string(), Tone::Bad));
    assert_eq!(status_label(&SessionStatus::Starting), ("starting…".to_string(), Tone::Warn));
    assert_eq!(status_label(&SessionStatus::Error("token expired".to_string())), ("token expired".to_string(), Tone::Bad));
    assert_eq!(output_hint(&SessionStatus::Stopped), " press Enter to start");
    assert_eq!(output_hint(&SessionStatus::Running), " waiting for output…");
}

#[test]
fn output_lines_and_resources_are_toned() {
    assert_eq!(line_tone(">>> Starting"), Tone::Accent);
    assert_eq!(line_tone("[stderr] boom"), Tone::Warn);
    assert_eq!(line_tone("An Error occurred"), Tone::Bad);
    assert_eq!(line_tone("ok"), Tone::Plain);
    assert_eq!(resource_tone("active"), Tone::Good);
    assert_eq!(resource_tone("DRAINING"), Tone::Warn);
    assert_eq!(resource_tone("Delete_Failed"), Tone::Bad);
    assert_eq!(resource_tone("PROVISIONING"), Tone::Dim);
}

#[test]
fn long_text_is_ellipsized() {
    assert_eq!(ellipsize("abcdefgh", 5), "abcd…");
    assert_eq!(ellipsize("abcde", 5), "abcde");
    assert_eq!(ellipsize("abcdefgh", 3), "abcdefgh");
    assert_eq!(ellipsize("ééééé", 4), "ééé…");
}

#[test]
fn tag_targets_are_shown_as_pairs() {
    assert_eq!(format_tag_target("tag:Env = prod,Role=db"), Some("Env:prod, Role:db".to_string()));
    assert_eq!(format_tag_target("tag:novalue"), None);
    assert_eq!(format_tag_target("i-123"), None);
}

#[test]
fn the_footer_follows_the_tab_and_status() {
    let mut a = app();
    let hints = footer_hints(&a);
    assert_eq!(hints[0], ("↑↓".to_string(), " navigate  ".to_string()));
    assert_eq!(hints[1], ("Enter".to_string(), " start  ".to_string()));
    assert_eq!(hints[hints.len() - 1], ("q".to_string(), " quit".to_string()));
    a.session_statuses[0] = SessionStatus::Running;
    a.running_count = 1;
    let hints = footer_hints(&a);
    assert_eq!(hints[1], ("s".to_string(), " stop  ".to_string()));
    assert_eq!(hints[2], ("S".to_string(), " stop all  ".to_string()));
    a.active_tab = AppTab::Terminal;
    a.input_mode = InputMode::TerminalInput;
    let hints = footer_hints(&a);
    assert_eq!(hints.len(), 7);
    assert_eq!(hints[0], ("Enter".to_string(), " run  ".to_string()));
}

#[test]
fn the_alias_list_is_grouped() {
    let mut a = app();
    a.session_statuses[2] = SessionStatus::Connected;
    let rows = session_rows(&a, 0).expect("rows");
    assert_eq!(rows.len(), 8);
    assert!(matches!(&rows[0], ListRow::Group(g) if g == "Hosts"));
    assert!(matches!(&rows[1], ListRow::Kind(KindHeading::Other)));
    match &rows[2] {
        ListRow::Alias(r) => {
            assert_eq!(r.index, 0);
            assert!(r.selected && r.last && !r.striped);
            assert_eq!(r.name_tone, Tone::Bright);
            assert_eq!(r.mark, "·");
            assert_eq!(r.port, None);
        },
        _ => panic!("expected an alias row"),
    }
    assert!(matches!(&rows[3], ListRow::Blank));
    assert!(matches!(&rows[4], ListRow::Group(g) if g == "Databases"));
    assert!(matches!(&rows[5], ListRow::Kind(KindHeading::Ssm)));
    match &rows[6] {
        ListRow::Alias(r) => {
            assert_eq!(r.index, 1);
            assert!(!r.last && !r.selected);
            assert_eq!(r.port.as_deref(), Some(":6432"));
            assert_eq!(r.tags.as_deref(), Some("Env:prod, Role:db"));
        },
        _ => panic!("expected an alias row"),
    }
    match &rows[7] {
        ListRow::Alias(r) => {
            assert_eq!(r.index, 2);
            assert!(r.last && r.striped);
            assert_eq!(r.name_tone, Tone::Good);
            assert_eq!(r.note.as_deref(), Some("connected"));
            assert_eq!(r.tags, None);
        },
        _ => panic!("expected an alias row"),
    }
    a.search_query = "zzz".to_string();
    a.update_search();
    assert!(session_rows(&a, 0).is_none());
}

#[test]
fn the_instance_list_view() {
    let mut s = InstancesState::new();
    s.loading_instances = true;
    assert!(matches!(instance_list_view(&s), InstanceListView::Loading));
    s.loading_instances = false;
    assert!(matches!(instance_list_view(&s), InstanceListView::NoInstances));
    s.on_instances(parse_instances("[{\"InstanceId\":\"i-1\",\"Name\":\"a\"},{\"InstanceId\":\"i-2\",\"Name\":\"b\"}]"));
    match instance_list_view(&s) {
        InstanceListView::Rows(v) => assert_eq!(v, vec![0, 1]),
        _ => panic!("expected rows"),
    }
    s.search_query = "nothing".to_string();
    s.update_instance_search();
    assert!(matches!(instance_list_view(&s), InstanceListView::NoMatches));
}

#[test]
fn ssm_panel_texts_and_size() {
    assert_eq!(ssm_status_line(0), "  Enter: connect  Tab: focus");
    assert_eq!(ssm_status_line(1), "  Ctrl+D: close  Tab: focus  Enter: new session");
    assert_eq!(ssm_status_line(3), "  F4/F5: switch session  [/]: nav  Ctrl+D: close  Tab: focus");
    assert_eq!(session_tab_label("db"), " db ");
    assert_eq!(session_tab_label("a-very-long-instance-name"), " a-very-long-in ");
    assert_eq!(ssm_panel_size(100, 40, false), (31, 62));
    assert_eq!(ssm_panel_size(100, 40, true), (30, 62));
    assert_eq!(ssm_panel_size(10, 5, false), (4, 20));
}

#[test]
fn reading_the_desktop_alias_file() {
    match read_aliases(None) {
        Err(e) => assert_eq!(e, "No aliases file found (set AWS_TUI_ALIASES or use the file picker)"),
        Ok(_) => panic!("expected an error"),
    }
    match read_aliases(Some(("/x".to_string(), Err("denied".to_string())))) {
        Err(e) => assert_eq!(e, "Failed to read /x: denied"),
        Ok(_) => panic!("expected an error"),
    }
    match read_aliases(Some(("/a".to_string(), Ok("alias s='aws sso login --sso-session corp'\n".to_string())))) {
        Ok((path, v)) => {
            assert_eq!(path, "/a");
            assert_eq!(v.len(), 1);
            assert!(matches!(v[0].kind, DesktopKind::SsoLogin));
        },
        Err(_) => panic!("expected aliases"),
    }
}

#[test]
fn ssm_sessions_back_and_forth() {
    let mut s = InstancesState::new();
    s.record_connected("i-1".to_string(), "a".to_string(), 30, 100);
    s.record_connected("i-2".to_string(), "b".to_string(), 30, 100);
    s.record_connected("i-3".to_string(), "c".to_string(), 30, 100);
    s.active_session_idx = 2;
    s.next_session();
    assert_eq!(s.active_session_idx, 0);
    s.prev_session();
    assert_eq!(s.active_session_idx, 2);
}

#[test]
fn clusters_back_and_forth_and_collapsing() {
    let mut c = ContainersState::new();
    c.profiles = vec!["dev".to_string()];
    c.fetch_clusters();
    c.tick(vec![FetchResult::EcsClusters(vec![
        EcsCluster { name: "prod".to_string(), status: "ACTIVE".to_string(), active_services: 2, running_tasks: 3, pending_tasks: 0 },
        EcsCluster { name: "dev".to_string(), status: "ACTIVE".to_string(), active_services: 1, running_tasks: 1, pending_tasks: 0 },
    ])]);
    c.focus = ContainersFocus::ClusterList;
    c.next_cluster();
    c.prev_cluster();
    assert_eq!(c.selected_ecs_tree, 0);
    c.ecs_toggle_selected();
    c.tick(vec![FetchResult::EcsServices(
        "prod".to_string(),
        vec![
            EcsService { name: "api".to_string(), status: "ACTIVE".to_string(), desired: 2, running: 2, task_definition: "api:3".to_string() },
            EcsService { name: "worker".to_string(), status: "ACTIVE".to_string(), desired: 1, running: 0, task_definition: "worker:1".to_string() },
        ],
    )]);
    assert_eq!(c.ecs_tree.len(), 4);
    assert!(c.ecs_tree[0].expanded);
    assert_eq!(c.ecs_tree[1].name, "api");
    assert_eq!(c.ecs_tree[3].name, "dev");
    c.ecs_collapse_selected();
    assert_eq!(c.ecs_tree.len(), 2);
    assert!(!c.ecs_tree[0].expanded);
    assert_eq!(c.ecs_tree[1].name, "dev");
}

#[test]
fn esc_ends_a_search_and_function_keys_show_tabs() {
    let mut a = app();
    press(&mut a, key(KeyCode::Char('/')));
    press(&mut a, key(KeyCode::Char('d')));
    assert!(!a.filtered_indices.is_empty());
    press(&mut a, key(KeyCode::Esc));
    assert!(a.input_mode == InputMode::Normal);
    assert_eq!(a.search_query, "");
    assert!(a.filtered_indices.is_empty());
    press(&mut a, key(KeyCode::F(2)));
    assert!(a.active_tab == AppTab::Terminal);
    assert!(a.input_mode == InputMode::TerminalInput);
    press(&mut a, key(KeyCode::Esc));
    press(&mut a, key(KeyCode::F(4)));
    assert!(a.active_tab == AppTab::Containers);
    press(&mut a, key(KeyCode::F(1)));
    assert!(a.active_tab == AppTab::Sessions);
}

#[test]
fn every_key_closes_the_prompt() {
    let mut a = app();
    a.running_count = 1;
    press(&mut a, key(KeyCode::Char('q')));
    assert!(a.show_confirm);
    press(&mut a, key(KeyCode::Char('x')));
    assert!(!a.show_confirm);
    assert!(!a.should_quit);
}

#[test]
fn error_messages_are_wrapped_by_words() {
    assert_eq!(
        error_lines("The security  token included\tin the request is invalid", 20),
        vec![
            " × The security token".to_string(),
            " × included in the".to_string(),
            " × request is invalid".to_string(),
        ]
    );
    assert_eq!(error_lines("averyveryverylongword x", 5), vec![" × averyveryverylongword".to_string(), " × x".to_string()]);
    assert_eq!(error_lines("é é", 3), vec![" × é".to_string(), " × é".to_string()]);
    assert_eq!(error_lines("é é", 5), vec![" × é é".to_string()]);
    assert!(error_lines("   ", 10).is_empty());
}
