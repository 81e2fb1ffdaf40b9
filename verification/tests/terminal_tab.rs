use aws_tui::terminal::{TerminalState, Completer, parse_i32_chars, MAX_HISTORY, MAX_ENTRY_LINES};

fn typed(t: &mut TerminalState, s: &str) {
    for c in s.chars() {
        t.insert_char(c, 1);
    }
}

#[test]
fn typing_then_backspace_restores_the_line() {
    let mut t = TerminalState::new();
    typed(&mut t, "aws s3");
    t.cursor_left();
    t.cursor_left();
    t.insert_char('X', 2);
    assert_eq!(t.input, "aws Xs3");
    t.backspace(3);
    assert_eq!(t.input, "aws s3");
    assert_eq!(t.cursor_pos, 4);
}

#[test]
fn editing_keys() {
    let mut t = TerminalState::new();
    typed(&mut t, "aws ec2 describe");
    t.delete_word_backward(5);
    assert_eq!(t.input, "aws ec2 ");
    t.cursor_home();
    t.delete(6);
    assert_eq!(t.input, "ws ec2 ");
    t.cursor_end();
    assert_eq!(t.cursor_pos, 7);
    t.clear_line();
    assert_eq!(t.input, "");
    assert_eq!(t.cursor_pos, 0);
}

#[test]
fn running_a_command_records_it_once() {
    let mut t = TerminalState::new();
    typed(&mut t, "  aws s3 ls  ");
    assert_eq!(t.execute(10), Some("aws s3 ls".to_string()));
    assert_eq!(t.input, "");
    typed(&mut t, "aws s3 ls");
    assert_eq!(t.execute(11), Some("aws s3 ls".to_string()));
    assert_eq!(t.history, vec!["aws s3 ls".to_string()]);
    assert_eq!(t.entries.len(), 2);
    assert!(t.entries[1].is_running);
    assert_eq!(t.execute(12), None);
}

#[test]
fn clear_empties_the_output() {
    let mut t = TerminalState::new();
    typed(&mut t, "aws s3 ls");
    t.execute(1);
    typed(&mut t, "clear");
    assert_eq!(t.execute(2), None);
    assert!(t.entries.is_empty());
    assert_eq!(t.history.len(), 2);
}

#[test]
fn the_history_is_bounded() {
    let mut t = TerminalState::new();
    for i in 0..(MAX_HISTORY + 3) {
        typed(&mut t, &format!("cmd {}", i));
        t.execute(i as u64);
    }
    assert_eq!(t.history.len(), MAX_HISTORY);
    assert_eq!(t.history[0], "cmd 3");
}

#[test]
fn walking_the_history() {
    let mut t = TerminalState::new();
    typed(&mut t, "first");
    t.execute(1);
    typed(&mut t, "second");
    t.execute(2);
    typed(&mut t, "draft");
    t.history_up();
    assert_eq!(t.input, "second");
    t.history_up();
    assert_eq!(t.input, "first");
    t.history_up();
    assert_eq!(t.input, "first");
    t.history_down();
    assert_eq!(t.input, "second");
    t.history_down();
    assert_eq!(t.input, "draft");
    assert_eq!(t.cursor_pos, 5);
}

#[test]
fn output_ends_with_the_exit_code() {
    let mut t = TerminalState::new();
    typed(&mut t, "aws s3 ls");
    t.execute(1);
    t.on_output(0, "bucket-a".to_string(), false);
    t.on_output(0, "denied".to_string(), true);
    t.on_output(0, "__EXIT__:255".to_string(), false);
    assert_eq!(t.entries[0].output_lines, vec!["bucket-a".to_string(), "[stderr] denied".to_string()]);
    assert_eq!(t.entries[0].exit_code, Some(255));
    assert!(!t.entries[0].is_running);
    assert_eq!(t.total_output_lines(), 4);
}

#[test]
fn command_output_keeps_its_last_lines() {
    let mut t = TerminalState::new();
    typed(&mut t, "x");
    t.execute(1);
    for i in 0..(MAX_ENTRY_LINES + 2) {
        t.on_output(0, format!("{}", i), false);
    }
    assert_eq!(t.entries[0].output_lines.len(), MAX_ENTRY_LINES);
    assert_eq!(t.entries[0].output_lines[0], "2");
}

#[test]
fn scrolling_stays_within_the_output() {
    let mut t = TerminalState::new();
    typed(&mut t, "x");
    t.execute(1);
    t.on_output(0, "a".to_string(), false);
    t.scroll_up(10);
    assert_eq!(t.scroll_offset, 2);
    t.scroll_down(5);
    assert_eq!(t.scroll_offset, 0);
}

#[test]
fn exit_codes_are_read_as_i32() {
    let p = |s: &str| parse_i32_chars(&s.chars().collect());
    assert_eq!(p("0"), Some(0));
    assert_eq!(p("-1"), Some(-1));
    assert_eq!(p("+7"), Some(7));
    assert_eq!(p("2147483647"), Some(i32::MAX));
    assert_eq!(p("-2147483648"), Some(i32::MIN));
    assert_eq!(p("2147483648"), None);
    assert_eq!(p(""), None);
    assert_eq!(p("1x"), None);
}

#[test]
fn completion_waits_for_a_pause_and_takes_a_suggestion() {
    let mut c = Completer::new();
    assert!(!c.should_query("aws e", 1000));
    c.notify_keystroke(1000);
    assert!(!c.should_query("aws e", 1100));
    assert!(c.should_query("aws e", 1150));
    assert!(c.begin_query("aws e"));
    assert!(!c.should_query("aws e", 2000));
    c.finish_query("aws e", true, "ec2\necs\n\neks\n");
    assert!(c.visible);
    c.next();
    c.next();
    c.next();
    assert_eq!(c.selected_index, 0);
    c.prev();
    assert_eq!(c.selected_index, 2);
    assert_eq!(c.accept_selected("aws e"), Some("aws eks ".to_string()));
    assert!(!c.visible);
    assert_eq!(c.accept_selected("aws e"), None);
}

#[test]
fn a_failed_completion_hides_the_suggestions() {
    let mut c = Completer::new();
    assert!(!c.begin_query("   "));
    c.finish_query("aws", false, "");
    assert!(!c.visible);
    assert!(c.cached_result.is_none());
}

#[test]
fn the_cursor_counts_bytes() {
    let mut t = TerminalState::new();
    typed(&mut t, "é日x");
    assert_eq!(t.cursor_pos, 6);
    t.cursor_left();
    assert_eq!(t.cursor_pos, 5);
    t.cursor_left();
    assert_eq!(t.cursor_pos, 2);
    t.cursor_right();
    assert_eq!(t.cursor_pos, 5);
    t.backspace(2);
    assert_eq!(t.input, "éx");
    assert_eq!(t.cursor_pos, 2);
    t.insert_char('ß', 3);
    assert_eq!(t.input, "éßx");
    assert_eq!(t.cursor_pos, 4);
    t.cursor_end();
    assert_eq!(t.cursor_pos, 5);
    t.delete_word_backward(4);
    assert_eq!(t.input, "");
    typed(&mut t, "aws é");
    t.completer.finish_query("aws é", true, "éa\n");
    assert_eq!(t.completer.cached_result.as_ref().map(|r| r.prefix_start), Some(4));
    t.accept_completion(9);
    assert_eq!(t.input, "aws éa ");
    assert_eq!(t.cursor_pos, 8);
}
