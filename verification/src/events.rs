//! Keys: what a key press does to the application, and the bytes a key sends
//! to a terminal session.
use vstd::prelude::*;
use vstd::utf8::encode_utf8;
use vstd::string::StringSliceAdditionalSpecFns;
use crate::text::{utf8_len, 
    ascii_lower, to_ascii_lower, push_char, without_last, decimal, u64_to_dec, concat, push_str,
};
use crate::app::{
    App, AppTab, InputMode, ConfirmAction, StartCommand, all_stopping, searched_as, moved_next,
    moved_previous, panel_toggled, start_attempted, stop_attempted,
};
use crate::instances::{
    InstancesState, popup_down, popup_up, match_next, match_prev, InstancesRequest, InstanceFocus, InstanceInfoPopup, SsmConnectionStatus,
    instances_fetched, info_fetched, ssm_connecting, ssm_disconnected, focus_cycled, region_next,
    region_prev, instance_next, instance_prev, session_next, session_prev, profile_next,
    profile_prev, instance_searched, popup_searched, other_tab,
};
use crate::containers::{
    ContainersState, ContainersFocus, ContainersSubTab, FetchRequest, cont_profile_next,
    cont_profile_prev, cont_region_next, cont_region_prev, ecs_toggled, ecs_collapsed, cluster_next,
    cluster_prev, detail_next, detail_prev, cont_focus_cycled, sub_tab_switched,
    ecs_clusters_fetched, eks_clusters_fetched, clusters_fetched, detail_fetched,
};
use crate::terminal::{
    TerminalState, Completer, output_line_count, executed, completer_next, completer_prev,
    completion_accepted, backspaced, deleted, moved_left, moved_right, moved_home, moved_end,
    line_cleared, word_deleted, history_went_up, history_went_down, scrolled_up, scrolled_down,
    char_inserted, completion_fits, completion_fits_exec,
};

verus! {

// ─── Keys ───────────────────────────────────────────────────────────────────
/// A key.
#[derive(Debug, Clone, Copy, PartialEq, Eq, Structural)]
pub enum KeyCode {
    Char(char),
    /// A function key, by its number.
    F(u8),
    Enter,
    Backspace,
    Delete,
    Esc,
    Tab,
    BackTab,
    Up,
    Down,
    Left,
    Right,
    Home,
    End,
    PageUp,
    PageDown,
    /// Any key not listed.
    Other,
}

/// A key press, with the modifiers held.
#[derive(Debug, Clone, Copy, PartialEq, Eq, Structural)]
pub struct KeyEvent {
    pub code: KeyCode,
    pub control: bool,
    pub shift: bool,
}

/// The bytes a key sends to a terminal: a control character for Ctrl with a
/// letter or `[`, `\` or `]`; a character's UTF-8 encoding; the usual codes
/// and escape sequences for the other keys; nothing for the rest.
pub open spec fn pty_bytes(key: KeyEvent) -> Option<Seq<u8>> {
    match key.code {
        KeyCode::Char(c) => if key.control {
            let l = ascii_lower(c);
            if 'a' <= l <= 'z' {
                Some(seq![((l as u32) - 96) as u8])
            } else if l == '[' {
                Some(seq![27u8])
            } else if l == '\\' {
                Some(seq![28u8])
            } else if l == ']' {
                Some(seq![29u8])
            } else {
                None
            }
        } else {
            Some(encode_utf8(seq![c]))
        },
        KeyCode::Enter => Some(seq![13u8]),
        KeyCode::Backspace => Some(seq![127u8]),
        KeyCode::Delete => Some(seq![27u8, 91u8, 51u8, 126u8]),
        KeyCode::Esc => Some(seq![27u8]),
        KeyCode::Tab => Some(seq![9u8]),
        KeyCode::BackTab => Some(seq![27u8, 91u8, 90u8]),
        KeyCode::Up => Some(seq![27u8, 91u8, 65u8]),
        KeyCode::Down => Some(seq![27u8, 91u8, 66u8]),
        KeyCode::Right => Some(seq![27u8, 91u8, 67u8]),
        KeyCode::Left => Some(seq![27u8, 91u8, 68u8]),
        KeyCode::Home => Some(seq![27u8, 91u8, 72u8]),
        KeyCode::End => Some(seq![27u8, 91u8, 70u8]),
        KeyCode::PageUp => Some(seq![27u8, 91u8, 53u8, 126u8]),
        KeyCode::PageDown => Some(seq![27u8, 91u8, 54u8, 126u8]),
        _ => None,
    }
}

/// The bytes `key` sends to a terminal session (see `pty_bytes`).
pub fn key_to_pty_bytes(key: &KeyEvent) -> (r: Option<Vec<u8>>)
    ensures
        match r {
            Some(b) => pty_bytes(*key) == Some(b@),
            None => pty_bytes(*key) is None,
        },
{
    match key.code {
        KeyCode::Char(c) => {
            if key.control {
                let l = to_ascii_lower(c);
                if 'a' <= l && l <= 'z' {
                    let b: u8 = ((l as u32) - 96) as u8;
                    Some(vec![b])
                } else if l == '[' {
                    Some(vec![27u8])
                } else if l == '\\' {
                    Some(vec![28u8])
                } else if l == ']' {
                    Some(vec![29u8])
                } else {
                    None
                }
            } else {
                let mut s = String::new();
                push_char(&mut s, c);
                let b = s.as_str().as_bytes_vec();
                proof {
                    assert(s@ =~= seq![c]);
                }
                Some(b)
            }
        },
        KeyCode::Enter => Some(vec![13u8]),
        KeyCode::Backspace => Some(vec![127u8]),
        KeyCode::Delete => Some(vec![27u8, 91u8, 51u8, 126u8]),
        KeyCode::Esc => Some(vec![27u8]),
        KeyCode::Tab => Some(vec![9u8]),
        KeyCode::BackTab => Some(vec![27u8, 91u8, 90u8]),
        KeyCode::Up => Some(vec![27u8, 91u8, 65u8]),
        KeyCode::Down => Some(vec![27u8, 91u8, 66u8]),
        KeyCode::Right => Some(vec![27u8, 91u8, 67u8]),
        KeyCode::Left => Some(vec![27u8, 91u8, 68u8]),
        KeyCode::Home => Some(vec![27u8, 91u8, 72u8]),
        KeyCode::End => Some(vec![27u8, 91u8, 70u8]),
        KeyCode::PageUp => Some(vec![27u8, 91u8, 53u8, 126u8]),
        KeyCode::PageDown => Some(vec![27u8, 91u8, 54u8, 126u8]),
        _ => None,
    }
}


// ─── What a key asks the caller to do ───────────────────────────────────────
/// The work a key press leaves to the caller.
pub enum KeyAction {
    Nothing,
    /// Kill the processes of these sessions (then `record_killed` each).
    KillSessions(Vec<String>),
    /// Start this session (then `on_started`, or `report_error`).
    StartSession(StartCommand),
    /// Kill the process of the alias at this position (then `on_killed`).
    KillSession(usize),
    /// Run this command of the Terminal tab.
    RunCommand(String),
    /// Run this request of the Instances tab.
    Instances(InstancesRequest),
    /// Open this SSM session with a terminal of `rows` × `cols`.
    ConnectSsm { request: InstancesRequest, rows: u16, cols: u16 },
    /// Close the terminal of the SSM session that was at this position.
    CloseSsm(usize),
    /// Send these bytes to the terminal of the SSM session at this position.
    SsmInput { session: usize, bytes: Vec<u8> },
    /// Run this request of the Containers tab.
    Containers(FetchRequest),
}

/// The request of the Instances tab in `r`, if it carries one.
pub open spec fn inst_request(r: KeyAction) -> Option<InstancesRequest> {
    match r {
        KeyAction::Instances(q) => Some(q),
        KeyAction::ConnectSsm { request, .. } => Some(request),
        _ => None,
    }
}

/// The request of the Containers tab in `r`, if it carries one.
pub open spec fn cont_request(r: KeyAction) -> Option<FetchRequest> {
    match r {
        KeyAction::Containers(q) => Some(q),
        _ => None,
    }
}

/// The command of the Terminal tab in `r`, if it carries one.
pub open spec fn run_request(r: KeyAction) -> Option<String> {
    match r {
        KeyAction::RunCommand(c) => Some(c),
        _ => None,
    }
}

/// The session start in `r`, if it carries one.
pub open spec fn start_request(r: KeyAction) -> Option<StartCommand> {
    match r {
        KeyAction::StartSession(c) => Some(c),
        _ => None,
    }
}

/// The alias position to kill in `r`, if it carries one.
pub open spec fn kill_index(r: KeyAction) -> Option<usize> {
    match r {
        KeyAction::KillSession(i) => Some(i),
        _ => None,
    }
}

/// The SSM session position to close in `r`, if it carries one.
pub open spec fn close_index(r: KeyAction) -> Option<usize> {
    match r {
        KeyAction::CloseSsm(i) => Some(i),
        _ => None,
    }
}

fn inst_action(q: Option<InstancesRequest>) -> (r: KeyAction)
    ensures
        inst_request(r) == q,
        r is Nothing || r is Instances,
{
    match q {
        Some(x) => KeyAction::Instances(x),
        None => KeyAction::Nothing,
    }
}

fn cont_action(q: Option<FetchRequest>) -> (r: KeyAction)
    ensures
        cont_request(r) == q,
        r is Nothing || r is Containers,
{
    match q {
        Some(x) => KeyAction::Containers(x),
        None => KeyAction::Nothing,
    }
}

// ─── Limits ─────────────────────────────────────────────────────────────────
/// The counts a key may add to stay within their types: the Terminal
/// tab's output lines and scroll position, the command line's length in
/// bytes (for a typed character), the suggestion taken (for Tab: see
/// `completion_fits`), and the information popup's scroll position (for the
/// keys that scroll it down).
pub open spec fn key_in_limits(app: App, key: KeyEvent) -> bool {
    let t = app.terminal_state;
    &&& output_line_count(t.entries@) + 10 <= usize::MAX
    &&& t.scroll_offset + 10 <= usize::MAX
    &&& (key.code is Char ==> utf8_len(t.input@) + 4 <= usize::MAX)
    &&& (key.code == KeyCode::Tab ==> completion_fits(t))
    &&& (key.code == KeyCode::Down || key.code == KeyCode::PageDown || key.code == KeyCode::Char('j')
        ==> match app.instances_state.info_popup {
        Some(p) => p.scroll + 10 <= u16::MAX,
        None => true,
    })
}

// ─── Confirmation, search and tabs ──────────────────────────────────────────
/// The prompt is closed with nothing to confirm.
pub open spec fn confirm_closed(o: App) -> App {
    App { show_confirm: false, confirm_action: ConfirmAction::Nothing, ..o }
}

/// A key while the confirmation prompt is shown: `y` or `Y` does the
/// confirmed action (stop all sessions, or quit); every key closes the
/// prompt.
pub open spec fn confirm_handled(o: App, key: KeyEvent, now: u64, n: App, r: KeyAction) -> bool {
    let c = confirm_closed(o);
    if key.code == KeyCode::Char('y') || key.code == KeyCode::Char('Y') {
        match o.confirm_action {
            ConfirmAction::StopAll => (r matches KeyAction::KillSessions(k) && all_stopping(c, n, now, k)),
            ConfirmAction::Quit => r is Nothing && n == (App { should_quit: true, ..c }),
            ConfirmAction::Nothing => r is Nothing && n == c,
        }
    } else {
        r is Nothing && n == c
    }
}

/// A key while typing the search of the Sessions tab: Esc ends it and
/// clears it, Enter ends it, Backspace and characters edit it.
pub open spec fn search_handled(o: App, key: KeyEvent, n: App) -> bool {
    match key.code {
        KeyCode::Esc => n.search_query@.len() == 0 && n.filtered_indices@.len() == 0 && n == (App {
            input_mode: InputMode::Normal,
            search_query: n.search_query,
            filtered_indices: n.filtered_indices,
            ..o
        }),
        KeyCode::Enter => n == (App { input_mode: InputMode::Normal, ..o }),
        KeyCode::Backspace => searched_as(o, without_last(o.search_query@), n),
        KeyCode::Char(c) => searched_as(o, o.search_query@.push(c), n),
        _ => n == o,
    }
}

/// Whether the key is F1 to F4, which switch tabs.
pub open spec fn is_tab_key(key: KeyEvent) -> bool {
    key.code == KeyCode::F(1) || key.code == KeyCode::F(2) || key.code == KeyCode::F(3) || key.code
        == KeyCode::F(4)
}

/// Whether the Instances tab lists on being shown: a profile exists and
/// nothing is listed or loading.
pub open spec fn instances_want_fetch(s: InstancesState) -> bool {
    s.profiles@.len() > 0 && s.instances@.len() == 0 && !s.loading_instances
}

/// Whether the Containers tab lists on being shown: a profile exists and
/// nothing is listed or loading.
pub open spec fn containers_want_fetch(s: ContainersState) -> bool {
    s.profiles@.len() > 0 && s.ecs_tree@.len() == 0 && !s.loading_ecs_clusters && s.eks_clusters@.len()
        == 0 && !s.loading_eks_clusters
}

/// F1 to F4: show a tab (the Terminal tab ready for typing); the Instances
/// and Containers tabs list their contents where they want to.
pub open spec fn tab_key_handled(o: App, key: KeyEvent, n: App, r: KeyAction) -> bool {
    if key.code == KeyCode::F(1) {
        r is Nothing && n == (App { active_tab: AppTab::Sessions, input_mode: InputMode::Normal, ..o })
    } else if key.code == KeyCode::F(2) {
        r is Nothing && n == (App {
            active_tab: AppTab::Terminal,
            input_mode: InputMode::TerminalInput,
            ..o
        })
    } else if key.code == KeyCode::F(3) {
        let m = App { active_tab: AppTab::Instances, input_mode: InputMode::Normal, ..o };
        if instances_want_fetch(o.instances_state) {
            &&& r is Nothing || r is Instances
            &&& instances_fetched(o.instances_state, n.instances_state, inst_request(r))
            &&& n == (App { instances_state: n.instances_state, ..m })
        } else {
            r is Nothing && n == m
        }
    } else {
        let m = App { active_tab: AppTab::Containers, input_mode: InputMode::Normal, ..o };
        if containers_want_fetch(o.containers_state) {
            &&& r is Nothing || r is Containers
            &&& clusters_fetched(o.containers_state, n.containers_state, cont_request(r))
            &&& n == (App { containers_state: n.containers_state, ..m })
        } else {
            r is Nothing && n == m
        }
    }
}

fn on_confirm_key(app: &mut App, key: &KeyEvent, now: u64) -> (r: KeyAction)
    requires
        old(app).wf(),
    ensures
        final(app).wf(),
        confirm_handled(*old(app), *key, now, *final(app), r),
{
    let action = app.confirm_action;
    app.show_confirm = false;
    app.confirm_action = ConfirmAction::Nothing;
    if key.code == KeyCode::Char('y') || key.code == KeyCode::Char('Y') {
        match action {
            ConfirmAction::StopAll => {
                let k = app.stop_all_sessions(now);
                KeyAction::KillSessions(k)
            },
            ConfirmAction::Quit => {
                app.should_quit = true;
                KeyAction::Nothing
            },
            ConfirmAction::Nothing => KeyAction::Nothing,
        }
    } else {
        KeyAction::Nothing
    }
}

fn on_search_key(app: &mut App, key: &KeyEvent)
    requires
        old(app).wf(),
    ensures
        final(app).wf(),
        search_handled(*old(app), *key, *final(app)),
{
    match key.code {
        KeyCode::Esc => {
            app.input_mode = InputMode::Normal;
            app.search_query = String::new();
            app.filtered_indices = Vec::new();
        },
        KeyCode::Enter => {
            app.input_mode = InputMode::Normal;
        },
        KeyCode::Backspace => app.pop_search_char(),
        KeyCode::Char(c) => app.push_search_char(c),
        _ => {},
    }
}

fn on_tab_key(app: &mut App, key: &KeyEvent) -> (r: KeyAction)
    requires
        old(app).wf(),
        is_tab_key(*key),
    ensures
        final(app).wf(),
        tab_key_handled(*old(app), *key, *final(app), r),
{
    if key.code == KeyCode::F(1) {
        app.active_tab = AppTab::Sessions;
        app.input_mode = InputMode::Normal;
        KeyAction::Nothing
    } else if key.code == KeyCode::F(2) {
        app.active_tab = AppTab::Terminal;
        app.input_mode = InputMode::TerminalInput;
        KeyAction::Nothing
    } else if key.code == KeyCode::F(3) {
        app.active_tab = AppTab::Instances;
        app.input_mode = InputMode::Normal;
        let s = &app.instances_state;
        if s.profiles.len() > 0 && s.instances.len() == 0 && !s.loading_instances {
            let q = app.instances_state.fetch_instances();
            inst_action(q)
        } else {
            KeyAction::Nothing
        }
    } else {
        app.active_tab = AppTab::Containers;
        app.input_mode = InputMode::Normal;
        let c = &app.containers_state;
        if c.profiles.len() > 0 && c.ecs_tree.len() == 0 && !c.loading_ecs_clusters && c.eks_clusters.len() == 0
            && !c.loading_eks_clusters {
            let q = app.containers_state.fetch_clusters();
            cont_action(q)
        } else {
            KeyAction::Nothing
        }
    }
}

// ─── The Terminal tab's command line ────────────────────────────────────────
/// The command line with the suggestions hidden.
pub open spec fn suggestions_hidden(t: TerminalState) -> TerminalState {
    TerminalState { completer: Completer { visible: false, ..t.completer }, ..t }
}

/// An editing key on the command line `m`: Backspace and Delete remove a
/// character, Left and Right move, Shift with Up or Down scrolls by three
/// lines, Up and Down walk the history, Page Up and Page Down scroll by ten
/// lines, Tab takes the selected suggestion, Ctrl with `a`, `e`, `u`, `w`
/// or `c` goes home, goes to the end, clears the line, deletes a word or
/// clears the line; any other character is typed.
pub open spec fn line_edited(m: TerminalState, key: KeyEvent, now: u64, n: TerminalState) -> bool {
    match key.code {
        KeyCode::Backspace => backspaced(m, n, now),
        KeyCode::Delete => deleted(m, n, now),
        KeyCode::Left => moved_left(m, n),
        KeyCode::Right => moved_right(m, n),
        KeyCode::Up => if key.shift {
            scrolled_up(m, n, 3)
        } else {
            history_went_up(m, n)
        },
        KeyCode::Down => if key.shift {
            scrolled_down(m, n, 3)
        } else {
            history_went_down(m, n)
        },
        KeyCode::PageUp => scrolled_up(m, n, 10),
        KeyCode::PageDown => scrolled_down(m, n, 10),
        KeyCode::Tab => completion_accepted(m, n, now),
        KeyCode::Char(c) => if key.control && c == 'a' {
            moved_home(m, n)
        } else if key.control && c == 'e' {
            moved_end(m, n)
        } else if key.control && (c == 'u' || c == 'c') {
            line_cleared(m, n)
        } else if key.control && c == 'w' {
            word_deleted(m, n, now)
        } else {
            char_inserted(m, n, c, now)
        },
        _ => n == m,
    }
}

/// A key while typing on the Terminal tab: Ctrl-H and Ctrl-L (switching
/// terminals, of which there is one) do nothing; Enter runs the command
/// line; Esc hides the suggestions and stops typing; while suggestions are
/// shown Down and Up choose one and Tab takes it, and any other key hides
/// them before it edits the line.
pub open spec fn terminal_key_handled(o: App, key: KeyEvent, now: u64, n: App, r: KeyAction) -> bool {
    let t = o.terminal_state;
    if key.control && (key.code == KeyCode::Char('h') || key.code == KeyCode::Char('l')) {
        r is Nothing && n == o
    } else if key.code == KeyCode::Enter {
        &&& r is Nothing || r is RunCommand
        &&& executed(t, n.terminal_state, now, run_request(r))
        &&& n == (App { terminal_state: n.terminal_state, ..o })
    } else if key.code == KeyCode::Esc {
        r is Nothing && n == (App {
            terminal_state: suggestions_hidden(t),
            input_mode: InputMode::Normal,
            ..o
        })
    } else if t.completer.visible && key.code == KeyCode::Down {
        &&& r is Nothing
        &&& completer_next(t.completer, n.terminal_state.completer)
        &&& n == (App { terminal_state: TerminalState { completer: n.terminal_state.completer, ..t }, ..o })
    } else if t.completer.visible && key.code == KeyCode::Up {
        &&& r is Nothing
        &&& completer_prev(t.completer, n.terminal_state.completer)
        &&& n == (App { terminal_state: TerminalState { completer: n.terminal_state.completer, ..t }, ..o })
    } else if t.completer.visible && key.code == KeyCode::Tab {
        &&& r is Nothing
        &&& completion_accepted(t, n.terminal_state, now)
        &&& n == (App { terminal_state: n.terminal_state, ..o })
    } else {
        let m = if t.completer.visible {
            suggestions_hidden(t)
        } else {
            t
        };
        &&& r is Nothing
        &&& line_edited(m, key, now, n.terminal_state)
        &&& n == (App { terminal_state: n.terminal_state, ..o })
    }
}

fn edit_line(t: &mut TerminalState, key: &KeyEvent, now: u64)
    requires
        old(t).wf(),
        output_line_count(old(t).entries@) + 10 <= usize::MAX,
        old(t).scroll_offset + 10 <= usize::MAX,
        key.code is Char ==> utf8_len(old(t).input@) + 4 <= usize::MAX,
        key.code == KeyCode::Tab ==> completion_fits(*old(t)),
    ensures
        final(t).wf(),
        line_edited(*old(t), *key, now, *final(t)),
{
    match key.code {
        KeyCode::Backspace => t.backspace(now),
        KeyCode::Delete => t.delete(now),
        KeyCode::Left => t.cursor_left(),
        KeyCode::Right => t.cursor_right(),
        KeyCode::Up => {
            if key.shift {
                t.scroll_up(3);
            } else {
                t.history_up();
            }
        },
        KeyCode::Down => {
            if key.shift {
                t.scroll_down(3);
            } else {
                t.history_down();
            }
        },
        KeyCode::PageUp => t.scroll_up(10),
        KeyCode::PageDown => t.scroll_down(10),
        KeyCode::Tab => t.accept_completion(now),
        KeyCode::Char(c) => {
            if key.control && c == 'a' {
                t.cursor_home();
            } else if key.control && c == 'e' {
                t.cursor_end();
            } else if key.control && (c == 'u' || c == 'c') {
                t.clear_line();
            } else if key.control && c == 'w' {
                t.delete_word_backward(now);
            } else {
                t.insert_char(c, now);
            }
        },
        _ => {},
    }
}

fn on_terminal_key(app: &mut App, key: &KeyEvent, now: u64) -> (r: KeyAction)
    requires
        old(app).wf(),
        key_in_limits(*old(app), *key),
    ensures
        final(app).wf(),
        terminal_key_handled(*old(app), *key, now, *final(app), r),
{
    if key.control && (key.code == KeyCode::Char('h') || key.code == KeyCode::Char('l')) {
        return KeyAction::Nothing;
    }
    if key.code == KeyCode::Enter {
        return match app.terminal_state.execute(now) {
            Some(c) => KeyAction::RunCommand(c),
            None => KeyAction::Nothing,
        };
    }
    if key.code == KeyCode::Esc {
        app.terminal_state.completer.dismiss();
        app.input_mode = InputMode::Normal;
        return KeyAction::Nothing;
    }
    if app.terminal_state.completer.visible {
        if key.code == KeyCode::Down {
            app.terminal_state.completer.next();
            return KeyAction::Nothing;
        }
        if key.code == KeyCode::Up {
            app.terminal_state.completer.prev();
            return KeyAction::Nothing;
        }
        if key.code == KeyCode::Tab {
            app.terminal_state.accept_completion(now);
            return KeyAction::Nothing;
        }
        app.terminal_state.completer.dismiss();
    }
    edit_line(&mut app.terminal_state, key, now);
    KeyAction::Nothing
}

// ─── The Instances tab's popup, search and SSM terminal ─────────────────────
/// `o` with the information popup `p`.
pub open spec fn with_popup(o: App, p: InstanceInfoPopup) -> App {
    App { instances_state: InstancesState { info_popup: Some(p), ..o.instances_state }, ..o }
}

/// `o` with the information popup hidden.
pub open spec fn popup_hidden(o: App) -> App {
    App { instances_state: InstancesState { show_info_popup: false, ..o.instances_state }, ..o }
}

/// The popup of `n`.
pub open spec fn popup_of(n: App) -> InstanceInfoPopup {
    n.instances_state.info_popup->0
}

/// `n` is `o` with another information popup.
pub open spec fn popup_now(o: App, n: App) -> bool {
    n.instances_state.info_popup is Some && n == with_popup(o, popup_of(n))
}

/// What a key does to the information popup `p` (see `popup_key_handled`).
pub open spec fn popup_key_effect(p: InstanceInfoPopup, key: KeyEvent, q: InstanceInfoPopup) -> bool {
    if p.search_active {
        match key.code {
            KeyCode::Esc => popup_searched(InstanceInfoPopup { search_active: false, ..p }, Seq::empty(), q),
            KeyCode::Enter => q == (InstanceInfoPopup { search_active: false, ..p }),
            KeyCode::Backspace => popup_searched(p, without_last(p.search_query@), q),
            KeyCode::Char(c) => popup_searched(p, p.search_query@.push(c), q),
            _ => q == p,
        }
    } else {
        match key.code {
            KeyCode::Esc => popup_searched(p, Seq::empty(), q),
            KeyCode::Char('/') => popup_searched(InstanceInfoPopup { search_active: true, ..p }, Seq::empty(), q),
            KeyCode::Char('n') => match_next(p, q),
            KeyCode::Char('N') => match_prev(p, q),
            KeyCode::Tab => popup_searched(
                InstanceInfoPopup { tab: other_tab(p.tab), scroll: 0, ..p },
                p.search_query@,
                q,
            ),
            KeyCode::Down | KeyCode::Char('j') => popup_down(p, q, 1),
            KeyCode::Up | KeyCode::Char('k') => popup_up(p, q, 1),
            KeyCode::PageDown => popup_down(p, q, 10),
            KeyCode::PageUp => popup_up(p, q, 10),
            _ => q == p,
        }
    }
}

/// Whether a key hides the information popup: Esc where no search is typed
/// or held, or `q` where no search is typed.
pub open spec fn hides_popup(p: Option<InstanceInfoPopup>, key: KeyEvent) -> bool {
    match p {
        Some(p) => !p.search_active && (key.code == KeyCode::Char('q') || (key.code == KeyCode::Esc
            && p.search_query@.len() == 0)),
        None => key.code == KeyCode::Char('q') || key.code == KeyCode::Esc,
    }
}

/// A key while the information popup is shown. While a search is typed:
/// Esc ends and clears it, Enter ends it, Backspace and characters edit it.
/// Otherwise: Esc clears the search, or hides the popup where there is none;
/// `q` hides it; `/` starts a search; `n` and `N` go to the next and
/// previous match; Tab shows the other view; Down, `j`, Up and `k` scroll by
/// a line; Page Down and Page Up by ten.
pub open spec fn popup_key_handled(o: App, key: KeyEvent, n: App) -> bool {
    let p = o.instances_state.info_popup;
    if hides_popup(p, key) {
        n == popup_hidden(o)
    } else {
        match p {
            Some(p) => popup_now(o, n) && popup_key_effect(p, key, popup_of(n)),
            None => n == o,
        }
    }
}

/// A key while typing the instance search: Esc ends and clears it, Enter
/// ends it, Backspace and characters edit it.
pub open spec fn instance_search_handled(o: App, key: KeyEvent, n: App) -> bool {
    let s = o.instances_state;
    match key.code {
        KeyCode::Esc => {
            &&& n.instances_state.search_query@.len() == 0
            &&& n.instances_state.filtered_instances@.len() == 0
            &&& n == (App {
                instances_state: InstancesState {
                    search_active: false,
                    search_query: n.instances_state.search_query,
                    filtered_instances: n.instances_state.filtered_instances,
                    ..s
                },
                ..o
            })
        },
        KeyCode::Enter => n == (App { instances_state: InstancesState { search_active: false, ..s }, ..o }),
        KeyCode::Backspace => instance_searched(s, without_last(s.search_query@), n.instances_state) && n == (App {
            instances_state: n.instances_state,
            ..o
        }),
        KeyCode::Char(c) => instance_searched(s, s.search_query@.push(c), n.instances_state) && n == (App {
            instances_state: n.instances_state,
            ..o
        }),
        _ => n == o,
    }
}

/// The session that keys typed into the SSM terminal go to: the active one,
/// where it is connected.
pub open spec fn input_target(s: InstancesState) -> Option<usize> {
    if s.active_session_idx < s.ssm_sessions@.len() && s.ssm_sessions@[s.active_session_idx as int].status
        == SsmConnectionStatus::Connected {
        Some(s.active_session_idx)
    } else {
        None
    }
}

/// A key while typing into the SSM terminal: Ctrl-D closes the session
/// (leaving the terminal once none is left), F5 goes to the next session,
/// Tab leaves the terminal and moves the focus; any other key sends its
/// bytes to the active connected session.
pub open spec fn ssm_key_handled(o: App, key: KeyEvent, n: App, r: KeyAction) -> bool {
    let s = o.instances_state;
    if key.control && key.code == KeyCode::Char('d') {
        let ni = n.instances_state;
        &&& r is Nothing || r is CloseSsm
        &&& ssm_disconnected(s, InstancesState { focus: s.focus, ..ni }, close_index(r))
        &&& if ni.ssm_sessions@.len() == 0 {
            ni.focus == InstanceFocus::InstanceList && n == (App {
                instances_state: ni,
                input_mode: InputMode::Normal,
                ..o
            })
        } else {
            ni.focus == s.focus && n == (App { instances_state: ni, ..o })
        }
    } else if key.code == KeyCode::F(5) {
        r is Nothing && session_next(s, n.instances_state) && n == (App {
            instances_state: n.instances_state,
            ..o
        })
    } else if key.code == KeyCode::Tab {
        r is Nothing && focus_cycled(s, n.instances_state) && n == (App {
            instances_state: n.instances_state,
            input_mode: InputMode::Normal,
            ..o
        })
    } else {
        &&& n == o
        &&& match (pty_bytes(key), input_target(s)) {
            (Some(b), Some(i)) => (r matches KeyAction::SsmInput { session, bytes } && session == i && bytes@
                == b),
            _ => r is Nothing,
        }
    }
}

fn popup_key(p: &mut InstanceInfoPopup, key: &KeyEvent)
    requires
        key.code == KeyCode::Down || key.code == KeyCode::PageDown || key.code == KeyCode::Char('j')
            ==> old(p).scroll + 10 <= u16::MAX,
    ensures
        popup_key_effect(*old(p), *key, *final(p)),
{
    if p.search_active {
        match key.code {
            KeyCode::Esc => p.restart_search(false),
            KeyCode::Enter => {
                p.search_active = false;
            },
            KeyCode::Backspace => p.pop_search_char(),
            KeyCode::Char(c) => p.push_search_char(c),
            _ => {},
        }
    } else {
        match key.code {
            KeyCode::Esc => p.clear_search(),
            KeyCode::Char('/') => p.restart_search(true),
            KeyCode::Char('n') => p.next_match(),
            KeyCode::Char('N') => p.prev_match(),
            KeyCode::Tab => p.switch_tab(),
            KeyCode::Down | KeyCode::Char('j') => p.scroll_down(1),
            KeyCode::Up | KeyCode::Char('k') => p.scroll_up(1),
            KeyCode::PageDown => p.scroll_down(10),
            KeyCode::PageUp => p.scroll_up(10),
            _ => {},
        }
    }
}

fn hides_popup_exec(p: &Option<InstanceInfoPopup>, key: &KeyEvent) -> (r: bool)
    ensures
        r == hides_popup(*p, *key),
{
    match p {
        Some(p) => !p.search_active && (key.code == KeyCode::Char('q') || (key.code == KeyCode::Esc
            && p.search_query.as_str().unicode_len() == 0)),
        None => key.code == KeyCode::Char('q') || key.code == KeyCode::Esc,
    }
}

fn on_popup_key(app: &mut App, key: &KeyEvent)
    requires
        old(app).wf(),
        key_in_limits(*old(app), *key),
    ensures
        final(app).wf(),
        popup_key_handled(*old(app), *key, *final(app)),
{
    if hides_popup_exec(&app.instances_state.info_popup, key) {
        app.instances_state.show_info_popup = false;
        return ;
    }
    match app.instances_state.info_popup.take() {
        Some(mut p) => {
            popup_key(&mut p, key);
            app.instances_state.info_popup = Some(p);
        },
        None => {},
    }
}

fn on_instance_search_key(app: &mut App, key: &KeyEvent)
    requires
        old(app).wf(),
    ensures
        final(app).wf(),
        instance_search_handled(*old(app), *key, *final(app)),
{
    match key.code {
        KeyCode::Esc => {
            app.instances_state.search_active = false;
            app.instances_state.search_query = String::new();
            app.instances_state.filtered_instances = Vec::new();
        },
        KeyCode::Enter => {
            app.instances_state.search_active = false;
        },
        KeyCode::Backspace => app.instances_state.pop_search_char(),
        KeyCode::Char(c) => app.instances_state.push_search_char(c),
        _ => {},
    }
}

#[verifier::rlimit(40)]
fn on_ssm_key(app: &mut App, key: &KeyEvent) -> (r: KeyAction)
    requires
        old(app).wf(),
    ensures
        final(app).wf(),
        ssm_key_handled(*old(app), *key, *final(app), r),
{
    if key.control && key.code == KeyCode::Char('d') {
        let closed = app.instances_state.disconnect_ssm();
        if app.instances_state.ssm_sessions.len() == 0 {
            app.input_mode = InputMode::Normal;
            app.instances_state.focus = InstanceFocus::InstanceList;
        }
        return match closed {
            Some(i) => KeyAction::CloseSsm(i),
            None => KeyAction::Nothing,
        };
    }
    if key.code == KeyCode::F(5) {
        app.instances_state.next_session();
        return KeyAction::Nothing;
    }
    if key.code == KeyCode::Tab {
        app.input_mode = InputMode::Normal;
        app.instances_state.cycle_focus();
        return KeyAction::Nothing;
    }
    match key_to_pty_bytes(key) {
        Some(bytes) => match app.instances_state.input_session() {
            Some(i) => KeyAction::SsmInput { session: i, bytes },
            None => KeyAction::Nothing,
        },
        None => KeyAction::Nothing,
    }
}

// ─── Normal mode ────────────────────────────────────────────────────────────
/// Esc outside a search of its own: a search of the Sessions tab is
/// cleared.
pub open spec fn esc_cleared(o: App, n: App) -> bool {
    if o.search_query@.len() > 0 {
        n.search_query@.len() == 0 && n.filtered_indices@.len() == 0 && n == (App {
            search_query: n.search_query,
            filtered_indices: n.filtered_indices,
            ..o
        })
    } else {
        n == o
    }
}

/// `o` asking to confirm `action` with the message `msg`.
pub open spec fn confirming(o: App, n: App, action: ConfirmAction, msg: Seq<char>) -> bool {
    n.confirm_message@ == msg && n == (App {
        show_confirm: true,
        confirm_message: n.confirm_message,
        confirm_action: action,
        ..o
    })
}

/// A key on the Terminal tab when not typing: `i` starts typing, Up and
/// `k` scroll up three lines, Down and `j` down; `h` and `l` (switching
/// terminals, of which there is one) do nothing.
pub open spec fn terminal_tab_handled(o: App, key: KeyEvent, n: App) -> bool {
    let t = o.terminal_state;
    match key.code {
        KeyCode::Char('i') => n == (App { input_mode: InputMode::TerminalInput, ..o }),
        KeyCode::Up | KeyCode::Char('k') => scrolled_up(t, n.terminal_state, 3) && n == (App {
            terminal_state: n.terminal_state,
            ..o
        }),
        KeyCode::Down | KeyCode::Char('j') => scrolled_down(t, n.terminal_state, 3) && n == (App {
            terminal_state: n.terminal_state,
            ..o
        }),
        KeyCode::Esc => esc_cleared(o, n),
        _ => n == o,
    }
}

/// The rows of a new SSM terminal in a screen `height` rows high.
pub open spec fn ssm_rows(height: u16) -> u16 {
    let a: int = if height >= 5 {
        height - 5
    } else {
        0
    };
    (if a > 10 {
        a
    } else {
        10
    }) as u16
}

/// The columns of a new SSM terminal in a screen `width` columns wide:
/// the terminal panel takes 64% of it, less its two borders.
pub open spec fn ssm_cols(width: u16) -> u16 {
    let w: int = width * 64 / 100;
    let a: int = if w >= 2 {
        w - 2
    } else {
        0
    };
    (if a > 20 {
        a
    } else {
        20
    }) as u16
}

/// The Instances tab after its part of `n` changed.
pub open spec fn with_instances(o: App, n: App) -> bool {
    n == (App { instances_state: n.instances_state, ..o })
}

/// A key on the Instances tab: Tab moves the focus (typing into the
/// terminal where it lands on it); Up, `k`, Down and `j` move in the open
/// region list or the instance list; Enter picks a region and lists its
/// instances, opens the region list, or connects to the selected instance
/// and types into its terminal; Esc closes the region list; `/` starts a
/// search of the instance list; `r` lists again; `i` shows the selected
/// instance's information, or types into the terminal; `[` and `]` switch
/// sessions; Ctrl-H and Ctrl-L switch profiles and list again.
pub open spec fn instances_tab_handled(o: App, key: KeyEvent, width: u16, height: u16, n: App, r: KeyAction) -> bool {
    let s = o.instances_state;
    let ni = n.instances_state;
    match key.code {
        KeyCode::Tab => r is Nothing && focus_cycled(s, ni) && if ni.focus == InstanceFocus::SsmTerminal {
            n == (App { instances_state: ni, input_mode: InputMode::SsmInput, ..o })
        } else {
            with_instances(o, n)
        },
        KeyCode::Up | KeyCode::Char('k') => r is Nothing && with_instances(o, n) && if s.region_dropdown_open {
            region_prev(s, ni)
        } else if s.focus == InstanceFocus::InstanceList {
            instance_prev(s, ni)
        } else {
            ni == s
        },
        KeyCode::Down | KeyCode::Char('j') => r is Nothing && with_instances(o, n) && if s.region_dropdown_open {
            region_next(s, ni)
        } else if s.focus == InstanceFocus::InstanceList {
            instance_next(s, ni)
        } else {
            ni == s
        },
        KeyCode::Enter => if s.region_dropdown_open {
            &&& r is Nothing || r is Instances
            &&& instances_fetched(InstancesState { region_dropdown_open: false, ..s }, ni, inst_request(r))
            &&& with_instances(o, n)
        } else {
            match s.focus {
                InstanceFocus::RegionList => r is Nothing && n == (App {
                    instances_state: InstancesState { region_dropdown_open: true, ..s },
                    ..o
                }),
                InstanceFocus::InstanceList => {
                    &&& r is Nothing || (r matches KeyAction::ConnectSsm { rows, cols, .. } && rows == ssm_rows(
                        height,
                    ) && cols == ssm_cols(width))
                    &&& ssm_connecting(s, InstancesState { focus: s.focus, ..ni }, inst_request(r))
                    &&& ni.focus == InstanceFocus::SsmTerminal
                    &&& n == (App { instances_state: ni, input_mode: InputMode::SsmInput, ..o })
                },
                InstanceFocus::SsmTerminal => r is Nothing && n == o,
            }
        },
        KeyCode::Esc => r is Nothing && if s.region_dropdown_open {
            n == (App { instances_state: InstancesState { region_dropdown_open: false, ..s }, ..o })
        } else {
            n == o
        },
        KeyCode::Char('/') if s.focus == InstanceFocus::InstanceList => {
            &&& r is Nothing
            &&& ni.search_query@.len() == 0 && ni.filtered_instances@.len() == 0
            &&& n == (App {
                instances_state: InstancesState {
                    search_active: true,
                    search_query: ni.search_query,
                    filtered_instances: ni.filtered_instances,
                    ..s
                },
                ..o
            })
        },
        KeyCode::Char('r') => (r is Nothing || r is Instances) && instances_fetched(s, ni, inst_request(r))
            && with_instances(o, n),
        KeyCode::Char('i') => if s.focus == InstanceFocus::InstanceList {
            if s.instances@.len() > 0 {
                (r is Nothing || r is Instances) && info_fetched(s, ni, inst_request(r)) && with_instances(o, n)
            } else {
                r is Nothing && n == o
            }
        } else if s.ssm_sessions@.len() > 0 {
            r is Nothing && n == (App {
                instances_state: InstancesState { focus: InstanceFocus::SsmTerminal, ..s },
                input_mode: InputMode::SsmInput,
                ..o
            })
        } else {
            r is Nothing && n == o
        },
        KeyCode::Char('[') => r is Nothing && session_prev(s, ni) && with_instances(o, n),
        KeyCode::Char(']') => r is Nothing && session_next(s, ni) && with_instances(o, n),
        KeyCode::Char('h') if key.control => {
            &&& r is Nothing || r is Instances
            &&& exists|x: InstancesState| #[trigger] profile_prev(s, x) && instances_fetched(x, ni, inst_request(r))
            &&& with_instances(o, n)
        },
        KeyCode::Char('l') if key.control => {
            &&& r is Nothing || r is Instances
            &&& exists|x: InstancesState| #[trigger] profile_next(s, x) && instances_fetched(x, ni, inst_request(r))
            &&& with_instances(o, n)
        },
        _ => r is Nothing && n == o,
    }
}

fn on_terminal_tab_key(app: &mut App, key: &KeyEvent)
    requires
        old(app).wf(),
        key_in_limits(*old(app), *key),
    ensures
        final(app).wf(),
        terminal_tab_handled(*old(app), *key, *final(app)),
{
    match key.code {
        KeyCode::Char('i') => {
            app.input_mode = InputMode::TerminalInput;
        },
        KeyCode::Up | KeyCode::Char('k') => app.terminal_state.scroll_up(3),
        KeyCode::Down | KeyCode::Char('j') => app.terminal_state.scroll_down(3),
        KeyCode::Esc => clear_search(app),
        _ => {},
    }
}

fn clear_search(app: &mut App)
    requires
        old(app).wf(),
    ensures
        final(app).wf(),
        esc_cleared(*old(app), *final(app)),
{
    if app.search_query.as_str().unicode_len() > 0 {
        app.search_query = String::new();
        app.filtered_indices = Vec::new();
    }
}

fn ssm_size(width: u16, height: u16) -> (r: (u16, u16))
    ensures
        r == (ssm_rows(height), ssm_cols(width)),
{
    let a: u16 = if height >= 5 {
        height - 5
    } else {
        0
    };
    let rows: u16 = if a > 10 {
        a
    } else {
        10
    };
    let w: u32 = (width as u32) * 64 / 100;
    let b: u32 = if w >= 2 {
        w - 2
    } else {
        0
    };
    let c: u32 = if b > 20 {
        b
    } else {
        20
    };
    assert(c <= 65535 * 64 / 100) by (nonlinear_arith)
        requires
            c == if b > 20 {
                b
            } else {
                20
            },
            b <= w,
            w == (width as u32) * 64 / 100,
            width <= 65535,
    ;
    (rows, c as u16)
}

fn cycle_instances_focus(app: &mut App)
    requires
        old(app).wf(),
    ensures
        final(app).wf(),
        focus_cycled(old(app).instances_state, final(app).instances_state),
        if final(app).instances_state.focus == InstanceFocus::SsmTerminal {
            *final(app) == (App {
                instances_state: final(app).instances_state,
                input_mode: InputMode::SsmInput,
                ..*old(app)
            })
        } else {
            *final(app) == (App { instances_state: final(app).instances_state, ..*old(app) })
        },
{
    app.instances_state.cycle_focus();
    let f = app.instances_state.focus;
    match f {
        InstanceFocus::SsmTerminal => {
            app.input_mode = InputMode::SsmInput;
        },
        _ => {},
    }
}

fn inst_move_key(app: &mut App, key: &KeyEvent, width: u16, height: u16) -> (r: KeyAction)
    requires
        old(app).wf(),
        key.code == KeyCode::Up || key.code == KeyCode::Char('k') || key.code == KeyCode::Down
            || key.code == KeyCode::Char('j'),
    ensures
        final(app).wf(),
        instances_tab_handled(*old(app), *key, width, height, *final(app), r),
{
    let up = key.code == KeyCode::Up || key.code == KeyCode::Char('k');
    if app.instances_state.region_dropdown_open {
        if up {
            app.instances_state.prev_region();
        } else {
            app.instances_state.next_region();
        }
    } else if app.instances_state.focus == InstanceFocus::InstanceList {
        if up {
            app.instances_state.prev_instance();
        } else {
            app.instances_state.next_instance();
        }
    }
    KeyAction::Nothing
}

fn inst_enter_key(app: &mut App, key: &KeyEvent, width: u16, height: u16) -> (r: KeyAction)
    requires
        old(app).wf(),
        key.code == KeyCode::Enter,
    ensures
        final(app).wf(),
        instances_tab_handled(*old(app), *key, width, height, *final(app), r),
{
    if app.instances_state.region_dropdown_open {
        app.instances_state.region_dropdown_open = false;
        let q = app.instances_state.fetch_instances();
        inst_action(q)
    } else {
        match app.instances_state.focus {
            InstanceFocus::RegionList => {
                app.instances_state.region_dropdown_open = true;
                KeyAction::Nothing
            },
            InstanceFocus::InstanceList => {
                let (rows, cols) = ssm_size(width, height);
                let q = app.instances_state.connect_ssm();
                app.instances_state.focus = InstanceFocus::SsmTerminal;
                app.input_mode = InputMode::SsmInput;
                match q {
                    Some(request) => KeyAction::ConnectSsm { request, rows, cols },
                    None => KeyAction::Nothing,
                }
            },
            InstanceFocus::SsmTerminal => KeyAction::Nothing,
        }
    }
}

fn inst_info_key(app: &mut App, key: &KeyEvent, width: u16, height: u16) -> (r: KeyAction)
    requires
        old(app).wf(),
        key.code == KeyCode::Char('i'),
    ensures
        final(app).wf(),
        instances_tab_handled(*old(app), *key, width, height, *final(app), r),
{
    if app.instances_state.focus == InstanceFocus::InstanceList {
        if app.instances_state.instances.len() > 0 {
            let q = app.instances_state.fetch_instance_info();
            inst_action(q)
        } else {
            KeyAction::Nothing
        }
    } else {
        if app.instances_state.ssm_sessions.len() > 0 {
            app.instances_state.focus = InstanceFocus::SsmTerminal;
            app.input_mode = InputMode::SsmInput;
        }
        KeyAction::Nothing
    }
}

fn inst_profile_key(app: &mut App, key: &KeyEvent, width: u16, height: u16) -> (r: KeyAction)
    requires
        old(app).wf(),
        key.control,
        key.code == KeyCode::Char('h') || key.code == KeyCode::Char('l'),
    ensures
        final(app).wf(),
        instances_tab_handled(*old(app), *key, width, height, *final(app), r),
{
    if key.code == KeyCode::Char('h') {
        app.instances_state.prev_profile();
        let ghost x = app.instances_state;
        let q = app.instances_state.fetch_instances();
        let r = inst_action(q);
        assert(profile_prev(old(app).instances_state, x));
        r
    } else {
        app.instances_state.next_profile();
        let ghost x = app.instances_state;
        let q = app.instances_state.fetch_instances();
        let r = inst_action(q);
        assert(profile_next(old(app).instances_state, x));
        r
    }
}

fn inst_other_key(app: &mut App, key: &KeyEvent, width: u16, height: u16) -> (r: KeyAction)
    requires
        old(app).wf(),
        !(key.code == KeyCode::Up || key.code == KeyCode::Char('k') || key.code == KeyCode::Down
            || key.code == KeyCode::Char('j') || key.code == KeyCode::Enter || key.code == KeyCode::Char('i')
            || key.code == KeyCode::Tab),
        !(key.control && (key.code == KeyCode::Char('h') || key.code == KeyCode::Char('l'))),
    ensures
        final(app).wf(),
        instances_tab_handled(*old(app), *key, width, height, *final(app), r),
{
    match key.code {
        KeyCode::Esc => {
            if app.instances_state.region_dropdown_open {
                app.instances_state.region_dropdown_open = false;
            }
            KeyAction::Nothing
        },
        KeyCode::Char('/') => {
            if app.instances_state.focus == InstanceFocus::InstanceList {
                app.instances_state.search_active = true;
                app.instances_state.search_query = String::new();
                app.instances_state.filtered_instances = Vec::new();
            }
            KeyAction::Nothing
        },
        KeyCode::Char('r') => {
            let q = app.instances_state.fetch_instances();
            inst_action(q)
        },
        KeyCode::Char('[') => {
            app.instances_state.prev_session();
            KeyAction::Nothing
        },
        KeyCode::Char(']') => {
            app.instances_state.next_session();
            KeyAction::Nothing
        },
        _ => KeyAction::Nothing,
    }
}

fn on_instances_tab_key(app: &mut App, key: &KeyEvent, width: u16, height: u16) -> (r: KeyAction)
    requires
        old(app).wf(),
    ensures
        final(app).wf(),
        instances_tab_handled(*old(app), *key, width, height, *final(app), r),
{
    if key.code == KeyCode::Tab {
        cycle_instances_focus(app);
        KeyAction::Nothing
    } else if key.code == KeyCode::Up || key.code == KeyCode::Char('k') || key.code == KeyCode::Down
        || key.code == KeyCode::Char('j') {
        inst_move_key(app, key, width, height)
    } else if key.code == KeyCode::Enter {
        inst_enter_key(app, key, width, height)
    } else if key.code == KeyCode::Char('i') {
        inst_info_key(app, key, width, height)
    } else if key.control && (key.code == KeyCode::Char('h') || key.code == KeyCode::Char('l')) {
        inst_profile_key(app, key, width, height)
    } else {
        inst_other_key(app, key, width, height)
    }
}

/// The Containers tab after its part of `n` changed.
pub open spec fn with_containers(o: App, n: App) -> bool {
    n == (App { containers_state: n.containers_state, ..o })
}

/// The sub tab switched, and listed again where there is a profile.
pub open spec fn switched_and_fetched(s: ContainersState, n: ContainersState, r: KeyAction) -> bool {
    &&& r is Nothing || r is Containers
    &&& exists|x: ContainersState| #[trigger] sub_tab_switched(s, x) && if s.profiles@.len() > 0 {
        clusters_fetched(x, n, cont_request(r))
    } else {
        n == x && r is Nothing
    }
}

/// A key on the Containers tab: `1` and `2` show the ECS and EKS views
/// (listing them where nothing is listed or loading); Tab moves the focus;
/// Up, `k`, Down and `j` move in the open region list, the cluster list or
/// the detail list; Left collapses the selected ECS row; Left and Right on
/// the sub tab bar switch views and list again; Enter picks a region and
/// lists again, opens the region list, switches views, expands or collapses
/// an ECS row, or opens an EKS cluster's node groups; Esc closes the region
/// list, leaves the detail list or collapses the selected ECS row; `r`
/// lists again; Ctrl-H and Ctrl-L switch profiles and list again.
pub open spec fn containers_tab_handled(o: App, key: KeyEvent, n: App, r: KeyAction) -> bool {
    let s = o.containers_state;
    let nc = n.containers_state;
    match key.code {
        KeyCode::Char('1') => {
            let m = ContainersState { sub_tab: ContainersSubTab::Ecs, focus: ContainersFocus::ClusterList, ..s };
            &&& with_containers(o, n)
            &&& if s.ecs_tree@.len() == 0 && !s.loading_ecs_clusters && s.profiles@.len() > 0 {
                (r is Nothing || r is Containers) && ecs_clusters_fetched(m, nc, cont_request(r))
            } else {
                r is Nothing && nc == m
            }
        },
        KeyCode::Char('2') => {
            let m = ContainersState { sub_tab: ContainersSubTab::Eks, focus: ContainersFocus::ClusterList, ..s };
            &&& with_containers(o, n)
            &&& if s.eks_clusters@.len() == 0 && !s.loading_eks_clusters && s.profiles@.len() > 0 {
                (r is Nothing || r is Containers) && eks_clusters_fetched(m, nc, cont_request(r))
            } else {
                r is Nothing && nc == m
            }
        },
        KeyCode::Tab => r is Nothing && with_containers(o, n) && cont_focus_cycled(s, nc),
        KeyCode::Up | KeyCode::Char('k') => r is Nothing && with_containers(o, n) && if s.region_dropdown_open {
            cont_region_prev(s, nc)
        } else {
            match s.focus {
                ContainersFocus::ClusterList => cluster_prev(s, nc),
                ContainersFocus::DetailList => detail_prev(s, nc),
                _ => nc == s,
            }
        },
        KeyCode::Down | KeyCode::Char('j') => r is Nothing && with_containers(o, n) && if s.region_dropdown_open {
            cont_region_next(s, nc)
        } else {
            match s.focus {
                ContainersFocus::ClusterList => cluster_next(s, nc),
                ContainersFocus::DetailList => detail_next(s, nc),
                _ => nc == s,
            }
        },
        KeyCode::Left if s.focus == ContainersFocus::ClusterList && s.sub_tab == ContainersSubTab::Ecs => r is Nothing
            && with_containers(o, n) && ecs_collapsed(s, nc),
        KeyCode::Left if s.focus == ContainersFocus::SubTabBar => with_containers(o, n) && switched_and_fetched(
            s,
            nc,
            r,
        ),
        KeyCode::Right if s.focus == ContainersFocus::SubTabBar => with_containers(o, n) && switched_and_fetched(
            s,
            nc,
            r,
        ),
        KeyCode::Enter => with_containers(o, n) && if s.region_dropdown_open {
            (r is Nothing || r is Containers) && clusters_fetched(
                ContainersState { region_dropdown_open: false, ..s },
                nc,
                cont_request(r),
            )
        } else {
            match s.focus {
                ContainersFocus::RegionList => r is Nothing && nc == (ContainersState {
                    region_dropdown_open: true,
                    ..s
                }),
                ContainersFocus::SubTabBar => switched_and_fetched(s, nc, r),
                ContainersFocus::ClusterList => (r is Nothing || r is Containers) && match s.sub_tab {
                    ContainersSubTab::Ecs => ecs_toggled(s, nc, cont_request(r)),
                    ContainersSubTab::Eks => detail_fetched(
                        s,
                        ContainersState { focus: ContainersFocus::ClusterList, ..nc },
                        cont_request(r),
                    ) && nc.focus == ContainersFocus::DetailList,
                },
                ContainersFocus::DetailList => r is Nothing && nc == s,
            }
        },
        KeyCode::Esc => r is Nothing && with_containers(o, n) && if s.region_dropdown_open {
            nc == (ContainersState { region_dropdown_open: false, ..s })
        } else if s.focus == ContainersFocus::DetailList {
            nc == (ContainersState { focus: ContainersFocus::ClusterList, ..s })
        } else if s.focus == ContainersFocus::ClusterList && s.sub_tab == ContainersSubTab::Ecs {
            ecs_collapsed(s, nc)
        } else {
            nc == s
        },
        KeyCode::Char('r') => (r is Nothing || r is Containers) && with_containers(o, n) && clusters_fetched(
            s,
            nc,
            cont_request(r),
        ),
        KeyCode::Char('h') if key.control => {
            &&& r is Nothing || r is Containers
            &&& with_containers(o, n)
            &&& exists|x: ContainersState| #[trigger] cont_profile_prev(s, x) && clusters_fetched(x, nc, cont_request(r))
        },
        KeyCode::Char('l') if key.control => {
            &&& r is Nothing || r is Containers
            &&& with_containers(o, n)
            &&& exists|x: ContainersState| #[trigger] cont_profile_next(s, x) && clusters_fetched(x, nc, cont_request(r))
        },
        _ => r is Nothing && n == o,
    }
}

fn switch_and_fetch(c: &mut ContainersState) -> (r: KeyAction)
    requires
        old(c).wf(),
    ensures
        final(c).wf(),
        switched_and_fetched(*old(c), *final(c), r),
{
    c.switch_sub_tab();
    let ghost x = *c;
    let r = if c.profiles.len() > 0 {
        let q = c.fetch_clusters();
        cont_action(q)
    } else {
        KeyAction::Nothing
    };
    assert(sub_tab_switched(*old(c), x));
    r
}

fn cont_view_key(app: &mut App, key: &KeyEvent) -> (r: KeyAction)
    requires
        old(app).wf(),
        key.code == KeyCode::Char('1') || key.code == KeyCode::Char('2'),
    ensures
        final(app).wf(),
        containers_tab_handled(*old(app), *key, *final(app), r),
{
    let c = &mut app.containers_state;
    if key.code == KeyCode::Char('1') {
        c.sub_tab = ContainersSubTab::Ecs;
        c.focus = ContainersFocus::ClusterList;
        if c.ecs_tree.len() == 0 && !c.loading_ecs_clusters && c.profiles.len() > 0 {
            let q = c.fetch_ecs_clusters();
            cont_action(q)
        } else {
            KeyAction::Nothing
        }
    } else {
        c.sub_tab = ContainersSubTab::Eks;
        c.focus = ContainersFocus::ClusterList;
        if c.eks_clusters.len() == 0 && !c.loading_eks_clusters && c.profiles.len() > 0 {
            let q = c.fetch_eks_clusters();
            cont_action(q)
        } else {
            KeyAction::Nothing
        }
    }
}

fn cont_move_key(app: &mut App, key: &KeyEvent) -> (r: KeyAction)
    requires
        old(app).wf(),
        key.code == KeyCode::Up || key.code == KeyCode::Char('k') || key.code == KeyCode::Down
            || key.code == KeyCode::Char('j'),
    ensures
        final(app).wf(),
        containers_tab_handled(*old(app), *key, *final(app), r),
{
    let up = key.code == KeyCode::Up || key.code == KeyCode::Char('k');
    let c = &mut app.containers_state;
    if c.region_dropdown_open {
        if up {
            c.prev_region();
        } else {
            c.next_region();
        }
    } else {
        match c.focus {
            ContainersFocus::ClusterList => {
                if up {
                    c.prev_cluster();
                } else {
                    c.next_cluster();
                }
            },
            ContainersFocus::DetailList => {
                if up {
                    c.prev_detail();
                } else {
                    c.next_detail();
                }
            },
            _ => {},
        }
    }
    KeyAction::Nothing
}

fn cont_enter_key(app: &mut App, key: &KeyEvent) -> (r: KeyAction)
    requires
        old(app).wf(),
        key.code == KeyCode::Enter,
    ensures
        final(app).wf(),
        containers_tab_handled(*old(app), *key, *final(app), r),
{
    let c = &mut app.containers_state;
    if c.region_dropdown_open {
        c.region_dropdown_open = false;
        let q = c.fetch_clusters();
        return cont_action(q);
    }
    match c.focus {
        ContainersFocus::RegionList => {
            c.region_dropdown_open = true;
            KeyAction::Nothing
        },
        ContainersFocus::SubTabBar => switch_and_fetch(c),
        ContainersFocus::ClusterList => {
            match c.sub_tab {
                ContainersSubTab::Ecs => {
                    let q = c.ecs_toggle_selected();
                    cont_action(q)
                },
                ContainersSubTab::Eks => {
                    let q = c.fetch_detail_for_selected();
                    c.focus = ContainersFocus::DetailList;
                    cont_action(q)
                },
            }
        },
        ContainersFocus::DetailList => KeyAction::Nothing,
    }
}

fn cont_side_key(app: &mut App, key: &KeyEvent) -> (r: KeyAction)
    requires
        old(app).wf(),
        key.code == KeyCode::Left || key.code == KeyCode::Right || key.code == KeyCode::Esc,
    ensures
        final(app).wf(),
        containers_tab_handled(*old(app), *key, *final(app), r),
{
    let c = &mut app.containers_state;
    if key.code == KeyCode::Esc {
        if c.region_dropdown_open {
            c.region_dropdown_open = false;
        } else if c.focus == ContainersFocus::DetailList {
            c.focus = ContainersFocus::ClusterList;
        } else if c.focus == ContainersFocus::ClusterList && c.sub_tab == ContainersSubTab::Ecs {
            c.ecs_collapse_selected();
        }
        KeyAction::Nothing
    } else if key.code == KeyCode::Left && c.focus == ContainersFocus::ClusterList && c.sub_tab
        == ContainersSubTab::Ecs {
        c.ecs_collapse_selected();
        KeyAction::Nothing
    } else if c.focus == ContainersFocus::SubTabBar {
        switch_and_fetch(c)
    } else {
        KeyAction::Nothing
    }
}

fn cont_other_key(app: &mut App, key: &KeyEvent) -> (r: KeyAction)
    requires
        old(app).wf(),
        !(key.code == KeyCode::Up || key.code == KeyCode::Char('k') || key.code == KeyCode::Down
            || key.code == KeyCode::Char('j') || key.code == KeyCode::Enter || key.code == KeyCode::Char('1')
            || key.code == KeyCode::Char('2') || key.code == KeyCode::Left || key.code == KeyCode::Right
            || key.code == KeyCode::Esc),
    ensures
        final(app).wf(),
        containers_tab_handled(*old(app), *key, *final(app), r),
{
    let c = &mut app.containers_state;
    if key.code == KeyCode::Tab {
        c.cycle_focus();
        KeyAction::Nothing
    } else if key.code == KeyCode::Char('r') {
        let q = c.fetch_clusters();
        cont_action(q)
    } else if key.control && key.code == KeyCode::Char('h') {
        c.prev_profile();
        let ghost x = *c;
        let q = c.fetch_clusters();
        assert(cont_profile_prev(old(app).containers_state, x));
        cont_action(q)
    } else if key.control && key.code == KeyCode::Char('l') {
        c.next_profile();
        let ghost x = *c;
        let q = c.fetch_clusters();
        assert(cont_profile_next(old(app).containers_state, x));
        cont_action(q)
    } else {
        KeyAction::Nothing
    }
}

fn on_containers_tab_key(app: &mut App, key: &KeyEvent) -> (r: KeyAction)
    requires
        old(app).wf(),
    ensures
        final(app).wf(),
        containers_tab_handled(*old(app), *key, *final(app), r),
{
    if key.code == KeyCode::Char('1') || key.code == KeyCode::Char('2') {
        cont_view_key(app, key)
    } else if key.code == KeyCode::Up || key.code == KeyCode::Char('k') || key.code == KeyCode::Down
        || key.code == KeyCode::Char('j') {
        cont_move_key(app, key)
    } else if key.code == KeyCode::Enter {
        cont_enter_key(app, key)
    } else if key.code == KeyCode::Left || key.code == KeyCode::Right || key.code == KeyCode::Esc {
        cont_side_key(app, key)
    } else {
        cont_other_key(app, key)
    }
}

/// A key on the Sessions tab: Down, `j`, Up and `k` move in the alias
/// list; Tab and Back-Tab switch panes; Enter starts the selected alias's
/// session; `s` stops it; `S` asks to stop all sessions where some are
/// running; `/` starts typing a search; Esc clears the search; `g` and `G`
/// select the first and the last alias.
pub open spec fn sessions_tab_handled(o: App, key: KeyEvent, now: u64, n: App, r: KeyAction) -> bool {
    match key.code {
        KeyCode::Down | KeyCode::Char('j') => r is Nothing && moved_next(o, n),
        KeyCode::Up | KeyCode::Char('k') => r is Nothing && moved_previous(o, n),
        KeyCode::Tab | KeyCode::BackTab => r is Nothing && panel_toggled(o, n),
        KeyCode::Enter => (r is Nothing || r is StartSession) && start_attempted(o, n, now, start_request(r)),
        KeyCode::Char('s') => (r is Nothing || r is KillSession) && stop_attempted(o, n, now, kill_index(r)),
        KeyCode::Char('S') => r is Nothing && if o.running_count > 0 {
            confirming(
                o,
                n,
                ConfirmAction::StopAll,
                "Stop all "@ + decimal(o.running_count as nat) + " running session(s)?"@,
            )
        } else {
            n == o
        },
        KeyCode::Char('/') => r is Nothing && n.search_query@.len() == 0 && n == (App {
            input_mode: InputMode::Search,
            search_query: n.search_query,
            ..o
        }),
        KeyCode::Esc => r is Nothing && esc_cleared(o, n),
        KeyCode::Char('g') => r is Nothing && n == (App { selected_index: 0, ..o }),
        KeyCode::Char('G') => r is Nothing && if o.aliases@.len() > 0 {
            n == (App { selected_index: (o.aliases@.len() - 1) as usize, ..o })
        } else {
            n == o
        },
        _ => r is Nothing && n == o,
    }
}

/// A key when no prompt, search, typing or popup takes it: `q` quits, or
/// asks to stop the running sessions and quit; Ctrl-C quits; the other keys
/// go to the tab shown (an Esc no tab takes clears the Sessions search).
pub open spec fn normal_key_handled(
    o: App,
    key: KeyEvent,
    width: u16,
    height: u16,
    now: u64,
    n: App,
    r: KeyAction,
) -> bool {
    if key.code == KeyCode::Char('q') {
        r is Nothing && if o.running_count > 0 {
            confirming(
                o,
                n,
                ConfirmAction::Quit,
                "Stop "@ + decimal(o.running_count as nat) + " running session(s) and quit?"@,
            )
        } else {
            n == (App { should_quit: true, ..o })
        }
    } else if key.control && key.code == KeyCode::Char('c') {
        r is Nothing && n == (App { should_quit: true, ..o })
    } else {
        match o.active_tab {
            AppTab::Terminal => r is Nothing && terminal_tab_handled(o, key, n),
            AppTab::Instances => instances_tab_handled(o, key, width, height, n, r),
            AppTab::Containers => containers_tab_handled(o, key, n, r),
            AppTab::Sessions => sessions_tab_handled(o, key, now, n, r),
        }
    }
}

/// What a key press does, by what holds the keyboard: the confirmation
/// prompt, the search of the Sessions tab, the tab keys F1 to F4, typing on
/// the Terminal tab, the information popup and the instance search of the
/// Instances tab, typing into an SSM terminal, or else the tab shown.
pub open spec fn key_handled(
    o: App,
    key: KeyEvent,
    width: u16,
    height: u16,
    now: u64,
    n: App,
    r: KeyAction,
) -> bool {
    if o.show_confirm {
        confirm_handled(o, key, now, n, r)
    } else if o.input_mode == InputMode::Search {
        r is Nothing && search_handled(o, key, n)
    } else if is_tab_key(key) {
        tab_key_handled(o, key, n, r)
    } else if o.input_mode == InputMode::TerminalInput {
        terminal_key_handled(o, key, now, n, r)
    } else if o.instances_state.show_info_popup && o.active_tab == AppTab::Instances && o.input_mode
        == InputMode::Normal {
        r is Nothing && popup_key_handled(o, key, n)
    } else if o.instances_state.search_active && o.active_tab == AppTab::Instances && o.input_mode
        == InputMode::Normal {
        r is Nothing && instance_search_handled(o, key, n)
    } else if o.input_mode == InputMode::SsmInput {
        ssm_key_handled(o, key, n, r)
    } else {
        normal_key_handled(o, key, width, height, now, n, r)
    }
}

fn confirm_text(prefix: &str, count: usize, suffix: &str) -> (r: String)
    ensures
        r@ == prefix@ + decimal(count as nat) + suffix@,
{
    let mut m = concat(prefix, u64_to_dec(count as u64).as_str());
    push_str(&mut m, suffix);
    m
}

fn on_sessions_tab_key(app: &mut App, key: &KeyEvent, now: u64) -> (r: KeyAction)
    requires
        old(app).wf(),
    ensures
        final(app).wf(),
        sessions_tab_handled(*old(app), *key, now, *final(app), r),
{
    match key.code {
        KeyCode::Down | KeyCode::Char('j') => {
            app.next();
            KeyAction::Nothing
        },
        KeyCode::Up | KeyCode::Char('k') => {
            app.previous();
            KeyAction::Nothing
        },
        KeyCode::Tab | KeyCode::BackTab => {
            app.toggle_panel();
            KeyAction::Nothing
        },
        KeyCode::Enter => match app.start_selected(now) {
            Some(c) => KeyAction::StartSession(c),
            None => KeyAction::Nothing,
        },
        KeyCode::Char('s') => match app.stop_selected(now) {
            Some(i) => KeyAction::KillSession(i),
            None => KeyAction::Nothing,
        },
        KeyCode::Char('S') => {
            if app.running_count > 0 {
                app.show_confirm = true;
                app.confirm_message = confirm_text("Stop all ", app.running_count, " running session(s)?");
                app.confirm_action = ConfirmAction::StopAll;
            }
            KeyAction::Nothing
        },
        KeyCode::Char('/') => {
            app.input_mode = InputMode::Search;
            app.search_query = String::new();
            KeyAction::Nothing
        },
        KeyCode::Esc => {
            clear_search(app);
            KeyAction::Nothing
        },
        KeyCode::Char('g') => {
            app.selected_index = 0;
            KeyAction::Nothing
        },
        KeyCode::Char('G') => {
            if app.aliases.len() > 0 {
                app.selected_index = app.aliases.len() - 1;
            }
            KeyAction::Nothing
        },
        _ => KeyAction::Nothing,
    }
}

fn on_normal_key(app: &mut App, key: &KeyEvent, width: u16, height: u16, now: u64) -> (r: KeyAction)
    requires
        old(app).wf(),
        key_in_limits(*old(app), *key),
    ensures
        final(app).wf(),
        normal_key_handled(*old(app), *key, width, height, now, *final(app), r),
{
    if key.code == KeyCode::Char('q') {
        if app.running_count > 0 {
            app.show_confirm = true;
            app.confirm_message = confirm_text("Stop ", app.running_count, " running session(s) and quit?");
            app.confirm_action = ConfirmAction::Quit;
        } else {
            app.should_quit = true;
        }
        return KeyAction::Nothing;
    }
    if key.control && key.code == KeyCode::Char('c') {
        app.should_quit = true;
        return KeyAction::Nothing;
    }
    match app.active_tab {
        AppTab::Terminal => {
            on_terminal_tab_key(app, key);
            KeyAction::Nothing
        },
        AppTab::Instances => on_instances_tab_key(app, key, width, height),
        AppTab::Containers => on_containers_tab_key(app, key),
        AppTab::Sessions => on_sessions_tab_key(app, key, now),
    }
}

/// What a key press does to the application (see `key_handled`), on a
/// screen of `width` × `height` at time `now`; returns the work left to
/// the caller.
pub fn handle_key_event(app: &mut App, key: KeyEvent, width: u16, height: u16, now: u64) -> (r: KeyAction)
    requires
        old(app).wf(),
        key_in_limits(*old(app), key),
    ensures
        final(app).wf(),
        key_handled(*old(app), key, width, height, now, *final(app), r),
{
    if app.show_confirm {
        return on_confirm_key(app, &key, now);
    }
    if app.input_mode == InputMode::Search {
        on_search_key(app, &key);
        return KeyAction::Nothing;
    }
    if key.code == KeyCode::F(1) || key.code == KeyCode::F(2) || key.code == KeyCode::F(3) || key.code
        == KeyCode::F(4) {
        return on_tab_key(app, &key);
    }
    if app.input_mode == InputMode::TerminalInput {
        return on_terminal_key(app, &key, now);
    }
    if app.instances_state.show_info_popup && app.active_tab == AppTab::Instances && app.input_mode
        == InputMode::Normal {
        on_popup_key(app, &key);
        return KeyAction::Nothing;
    }
    if app.instances_state.search_active && app.active_tab == AppTab::Instances && app.input_mode
        == InputMode::Normal {
        on_instance_search_key(app, &key);
        return KeyAction::Nothing;
    }
    if app.input_mode == InputMode::SsmInput {
        return on_ssm_key(app, &key);
    }
    on_normal_key(app, &key, width, height, now)
}

/// Whether a key press stays within the limits `handle_key_event` needs
/// (see `key_in_limits`).
pub fn key_within_limits(app: &App, key: &KeyEvent) -> (r: bool)
    ensures
        r == key_in_limits(*app, *key),
{
    let t = &app.terminal_state;
    let lines_ok = match lines_fit(t) {
        Some(total) => total <= usize::MAX - 10,
        None => false,
    };
    let scroll_ok = t.scroll_offset <= usize::MAX - 10;
    let prefix_ok = if key.code == KeyCode::Tab {
        completion_fits_exec(t)
    } else {
        true
    };
    let typing_ok = match key.code {
        KeyCode::Char(_) => {
            let v = crate::text::chars_of(t.input.as_str());
            assert(v.len() == v@.len());
            crate::text::bytes_of(&v) + 4 <= usize::MAX as u128
        },
        _ => true,
    };
    let popup_ok = if key.code == KeyCode::Down || key.code == KeyCode::PageDown || key.code == KeyCode::Char('j') {
        match &app.instances_state.info_popup {
            Some(p) => p.scroll <= u16::MAX - 10,
            None => true,
        }
    } else {
        true
    };
    lines_ok && scroll_ok && typing_ok && prefix_ok && popup_ok
}

/// The lines the Terminal tab's output takes, where they fit in a `usize`.
fn lines_fit(t: &TerminalState) -> (r: Option<usize>)
    ensures
        match r {
            Some(v) => v == output_line_count(t.entries@),
            None => output_line_count(t.entries@) > usize::MAX,
        },
{
    let mut total: usize = 0;
    let mut i: usize = 0;
    while i < t.entries.len()
        invariant
            i <= t.entries@.len(),
            total == output_line_count(t.entries@.take(i as int)),
        decreases t.entries@.len() - i,
    {
        assert(t.entries@.take(i + 1).drop_last() =~= t.entries@.take(i as int));
        let len = t.entries[i].output_lines.len();
        if total > usize::MAX - 2 || total + 2 > usize::MAX - len {
            proof {
                crate::terminal::lemma_count_grows(t.entries@, i + 1);
            }
            return None;
        }
        total = total + 2 + len;
        i = i + 1;
    }
    assert(t.entries@.take(i as int) =~= t.entries@);
    Some(total)
}

} // verus!
