use aws_tui::app::{App, AppTab, InputMode, ConfirmAction, ActivePanel, clock_string, remaining_string, uptime_string};
use aws_tui::parser::{Alias, AliasKind};
use aws_tui::session::SessionStatus;
use aws_tui::events::{handle_key_event, key_to_pty_bytes, key_within_limits, KeyAction, KeyCode, KeyEvent};
use aws_tui::instances::InstancesRequest;

fn alias(name: &str, command: &str, group: &str) -> Alias {
    Alias { name: name.to_string(), command: command.to_string(), kind: AliasKind::Other, group: group.to_string() }
}

fn app() -> App {
    App::new(
        vec![
            alias("web", "ssh web", "Hosts"),
            alias("db-prod", "aws ssm start-session --target i-1 --parameters {\"a\":[\"1\"]}", "Databases"),
            alias("db-dev", "psql dev", "Databases"),
        ],
        "aliases.sh".to_string(),
        0,
    )
}

fn key(code: KeyCode) -> KeyEvent {
    KeyEvent { code, control: false, shift: false }
}

fn ctrl(c: char) -> KeyEvent {
    KeyEvent { code: KeyCode::Char(c), control: true, shift: false }
}

fn press(a: &mut App, k: KeyEvent) -> KeyAction {
    assert!(key_within_limits(a, &k));
    handle_key_event(a, k, 120, 40, 5000)
}

#[test]
fn a_new_app_shows_the_sessions_tab() {
    let a = app();
    assert_eq!(a.selected_index, 0);
    assert!(a.active_tab == AppTab::Sessions);
    assert!(a.input_mode == InputMode::Normal);
    assert_eq!(a.session_statuses.len(), 3);
    assert!(matches!(a.session_statuses[1], SessionStatus::Stopped));
}

#[test]
fn q_quits_when_nothing_runs() {
    let mut a = app();
    assert!(matches!(press(&mut a, key(KeyCode::Char('q'))), KeyAction::Nothing));
    assert!(a.should_quit);
}

#[test]
fn q_asks_first_when_sessions_run() {
    let mut a = app();
    a.running_count = 2;
    press(&mut a, key(KeyCode::Char('q')));
    assert!(a.show_confirm);
    assert_eq!(a.confirm_message, "Stop 2 running session(s) and quit?");
    assert!(a.confirm_action == ConfirmAction::Quit);
    press(&mut a, key(KeyCode::Char('n')));
    assert!(!a.show_confirm);
    assert!(!a.should_quit);
    press(&mut a, key(KeyCode::Char('q')));
    press(&mut a, key(KeyCode::Char('Y')));
    assert!(a.should_quit);
    assert!(a.confirm_action == ConfirmAction::Nothing);
}

#[test]
fn moving_in_the_alias_list_wraps() {
    let mut a = app();
    press(&mut a, key(KeyCode::Up));
    assert_eq!(a.selected_index, 2);
    press(&mut a, key(KeyCode::Char('j')));
    assert_eq!(a.selected_index, 0);
    press(&mut a, key(KeyCode::Char('G')));
    assert_eq!(a.selected_index, 2);
    press(&mut a, key(KeyCode::Char('g')));
    assert_eq!(a.selected_index, 0);
    press(&mut a, key(KeyCode::Tab));
    assert!(a.active_panel == ActivePanel::DetailPanel);
}

#[test]
fn searching_filters_the_aliases() {
    let mut a = app();
    press(&mut a, key(KeyCode::Char('/')));
    assert!(a.input_mode == InputMode::Search);
    press(&mut a, key(KeyCode::Char('D')));
    press(&mut a, key(KeyCode::Char('b')));
    assert_eq!(a.search_query, "Db");
    assert_eq!(a.filtered_indices, vec![1, 2]);
    assert_eq!(a.selected_index, 1);
    press(&mut a, key(KeyCode::Char('-')));
    press(&mut a, key(KeyCode::Char('d')));
    assert_eq!(a.filtered_indices, vec![2]);
    press(&mut a, key(KeyCode::Backspace));
    assert_eq!(a.filtered_indices, vec![1, 2]);
    press(&mut a, key(KeyCode::Enter));
    assert!(a.input_mode == InputMode::Normal);
    press(&mut a, key(KeyCode::Down));
    assert_eq!(a.selected_index, 1);
    press(&mut a, key(KeyCode::Esc));
    assert_eq!(a.search_query, "");
    assert!(a.filtered_indices.is_empty());
}

#[test]
fn starting_and_stopping_the_selected_session() {
    let mut a = app();
    press(&mut a, key(KeyCode::Down));
    let cmd = match press(&mut a, key(KeyCode::Enter)) {
        KeyAction::StartSession(c) => c,
        _ => panic!("expected a session to start"),
    };
    assert_eq!(cmd.index, 1);
    assert_eq!(cmd.name, "db-prod");
    assert_eq!(cmd.shell_command, "aws ssm start-session --target i-1 --parameters '{\"a\":[\"1\"]}'");
    a.on_started(cmd, Some(7), 1000);
    assert!(matches!(a.session_statuses[1], SessionStatus::Running));
    assert_eq!(a.session_pids[1], Some(7));
    assert_eq!(a.toast.as_ref().unwrap().message, "✓ db-prod started");
    assert!(matches!(press(&mut a, key(KeyCode::Enter)), KeyAction::Nothing));
    assert_eq!(a.toast.as_ref().unwrap().message, "✗ Session already active");
    let i = match press(&mut a, key(KeyCode::Char('s'))) {
        KeyAction::KillSession(i) => i,
        _ => panic!("expected a process to kill"),
    };
    a.on_killed(i, 2000);
    assert!(matches!(a.session_statuses[1], SessionStatus::Stopped));
    assert_eq!(a.toast.as_ref().unwrap().message, "■ db-prod stopped");
}

#[test]
fn stopping_an_unknown_session_is_an_error() {
    let mut a = app();
    assert!(matches!(press(&mut a, key(KeyCode::Char('s'))), KeyAction::Nothing));
    assert_eq!(a.toast.as_ref().unwrap().message, "✗ Session not found");
}

#[test]
fn stopping_all_sessions_after_confirming() {
    let mut a = app();
    let cmd = match press(&mut a, key(KeyCode::Enter)) {
        KeyAction::StartSession(c) => c,
        _ => panic!("expected a session to start"),
    };
    a.on_started(cmd, Some(9), 0);
    a.refresh_statuses();
    assert_eq!(a.running_count, 1);
    press(&mut a, key(KeyCode::Char('S')));
    assert_eq!(a.confirm_message, "Stop all 1 running session(s)?");
    match press(&mut a, key(KeyCode::Char('y'))) {
        KeyAction::KillSessions(k) => assert_eq!(k, vec!["web".to_string()]),
        _ => panic!("expected processes to kill"),
    }
    assert!(matches!(a.session_statuses[0], SessionStatus::Stopped));
    assert!(a.session_start_times.is_empty());
    assert_eq!(a.toast.as_ref().unwrap().message, "■ All sessions stopped");
}

#[test]
fn the_terminal_tab_runs_typed_commands() {
    let mut a = app();
    press(&mut a, key(KeyCode::F(2)));
    assert!(a.active_tab == AppTab::Terminal && a.input_mode == InputMode::TerminalInput);
    for c in "aws s3 lz".chars() {
        press(&mut a, key(KeyCode::Char(c)));
    }
    press(&mut a, key(KeyCode::Backspace));
    press(&mut a, key(KeyCode::Char('s')));
    match press(&mut a, key(KeyCode::Enter)) {
        KeyAction::RunCommand(c) => assert_eq!(c, "aws s3 ls"),
        _ => panic!("expected a command to run"),
    }
    press(&mut a, key(KeyCode::Up));
    assert_eq!(a.terminal_state.input, "aws s3 ls");
    press(&mut a, ctrl('u'));
    assert_eq!(a.terminal_state.input, "");
    press(&mut a, key(KeyCode::Esc));
    assert!(a.input_mode == InputMode::Normal);
    press(&mut a, key(KeyCode::Char('i')));
    assert!(a.input_mode == InputMode::TerminalInput);
}

#[test]
fn ctrl_c_quits_outside_typing() {
    let mut a = app();
    press(&mut a, ctrl('c'));
    assert!(a.should_quit);
}

#[test]
fn the_instances_tab_lists_on_first_show() {
    let mut a = app();
    a.instances_state.profiles = vec!["dev".to_string()];
    match press(&mut a, key(KeyCode::F(3))) {
        KeyAction::Instances(InstancesRequest::ListInstances { profile, region }) => {
            assert_eq!(profile, "dev");
            assert_eq!(region, "us-west-2");
        },
        _ => panic!("expected a listing"),
    }
    assert!(a.instances_state.loading_instances);
    assert!(a.active_tab == AppTab::Instances);
    assert!(matches!(press(&mut a, key(KeyCode::F(3))), KeyAction::Nothing));
}

#[test]
fn keys_become_terminal_bytes() {
    let b = |k: KeyEvent| key_to_pty_bytes(&k);
    assert_eq!(b(ctrl('c')), Some(vec![3]));
    assert_eq!(b(ctrl('A')), Some(vec![1]));
    assert_eq!(b(ctrl('[')), Some(vec![27]));
    assert_eq!(b(ctrl('1')), None);
    assert_eq!(b(key(KeyCode::Char('é'))), Some("é".as_bytes().to_vec()));
    assert_eq!(b(key(KeyCode::Enter)), Some(vec![b'\r']));
    assert_eq!(b(key(KeyCode::Up)), Some(b"\x1b[A".to_vec()));
    assert_eq!(b(key(KeyCode::PageDown)), Some(b"\x1b[6~".to_vec()));
    assert_eq!(b(key(KeyCode::F(7))), None);
}

#[test]
fn durations_as_text() {
    assert_eq!(clock_string(59), "00:59");
    assert_eq!(clock_string(3723), "01:02:03");
    assert_eq!(remaining_string(7380), "2h 03m");
    assert_eq!(remaining_string(300), "5m");
    assert_eq!(remaining_string(42), "42s");
    assert_eq!(uptime_string(3723), "1h 2m 3s");
    assert_eq!(uptime_string(61), "1m 1s");
    assert_eq!(uptime_string(5), "5s");
}
