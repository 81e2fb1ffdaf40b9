//! The terminal application's state: the aliases and their sessions, the
//! search, the confirmation prompt, notifications and animation, and the
//! states of the other tabs.
use vstd::prelude::*;
use crate::text::{
    str_to_string, concat, push_str, u64_to_dec, decimal, decimal2, u64_to_dec2, lowercase,
    to_lower, contains_seq, str_contains, push_char, pop_last, without_last,
};
use crate::parser::{Alias, AliasKind, AliasV, AliasKindV, aliases_view, opt_view};
use crate::session::{
    SessionManager, SessionStatus, SessionKind, StatusV, SessionV, KindV, sview, clone_status, active,
    lines_view, stdin_piped, expiry_view, stopped_view, must_kill, has_name, others_unchanged,
};
use crate::gui::aws::quote_parameters_spec;
use crate::json::strs_view;
use crate::assoc::{assoc_get, assoc_set, assoc_remove, distinct_keys, find_key, key_index, lemma_key_index};
use crate::instances::InstancesState;
use crate::containers::ContainersState;
use crate::terminal::TerminalState;
use crate::instances::position_of;

verus! {

// ─── Types ──────────────────────────────────────────────────────────────────
/// Which pane of the Sessions tab has the keyboard.
#[derive(Debug, Clone, Copy, PartialEq, Eq, Structural)]
pub enum ActivePanel {
    AliasList,
    DetailPanel,
}

/// What keys do: move and act, type a search, type a command, or go to an
/// SSM terminal.
#[derive(Debug, Clone, Copy, PartialEq, Eq, Structural)]
pub enum InputMode {
    Normal,
    Search,
    TerminalInput,
    SsmInput,
}

/// What a confirmed prompt does.
#[derive(Debug, Clone, Copy, PartialEq, Eq, Structural)]
pub enum ConfirmAction {
    Nothing,
    StopAll,
    Quit,
}

/// The kind of a notification.
#[derive(Debug, Clone, Copy, PartialEq, Eq, Structural)]
pub enum ToastKind {
    Success,
    Error,
    Info,
}

/// A notification, shown for three seconds.
#[derive(Debug, Clone)]
pub struct Toast {
    pub message: String,
    pub kind: ToastKind,
    /// When it appeared (milliseconds on the caller's clock).
    pub created_at: u64,
}

/// The tabs of the application.
#[derive(Debug, Clone, Copy, PartialEq, Eq, Structural)]
pub enum AppTab {
    Sessions,
    Terminal,
    Instances,
    Containers,
}

/// The frames of the spinner.
pub open spec fn spinner_frames() -> Seq<Seq<char>> {
    seq!["⠋"@, "⠙"@, "⠹"@, "⠸"@, "⠼"@, "⠴"@, "⠦"@, "⠧"@, "⠇"@, "⠏"@]
}

/// The number of spinner frames.
pub const SPINNER_LEN: usize = 10;

/// A tick mark.
pub const ICON_CHECK: &'static str = "✓";
/// A cross.
pub const ICON_CROSS: &'static str = "✗";
/// A stop square.
pub const ICON_STOP: &'static str = "■";

/// The application's state. Times are milliseconds on the caller's clock.
pub struct App {
    pub aliases: Vec<Alias>,
    pub selected_index: usize,
    pub active_panel: ActivePanel,
    pub input_mode: InputMode,
    pub search_query: String,
    pub filtered_indices: Vec<usize>,
    /// The status of each alias's session, by alias position.
    pub session_statuses: Vec<SessionStatus>,
    /// The output shown for each alias, by name.
    pub session_outputs: Vec<(String, Vec<String>)>,
    /// The process id of each alias's session, by alias position.
    pub session_pids: Vec<Option<u32>>,
    /// When each running session started, by name.
    pub session_start_times: Vec<(String, u64)>,
    /// The SSO token expiry text and remaining seconds, by name.
    pub token_expiry: Vec<(String, (String, u64))>,
    pub session_manager: SessionManager,
    pub running_count: usize,
    pub should_quit: bool,
    pub show_confirm: bool,
    pub confirm_message: String,
    pub confirm_action: ConfirmAction,
    pub _alias_file: String,
    pub list_scroll_offset: usize,
    pub tick: u64,
    pub spinner_frame: usize,
    pub cursor_visible: bool,
    pub toast: Option<Toast>,
    pub start_time: u64,
    pub active_tab: AppTab,
    pub instances_state: InstancesState,
    pub containers_state: ContainersState,
    pub terminal_state: TerminalState,
}

impl App {
    /// The state is well formed: one status and one process id per alias,
    /// the selection among the aliases, a valid spinner frame, each name at
    /// most once in the maps by name, and the tabs' own states well formed.
    pub open spec fn wf(&self) -> bool {
        &&& self.session_statuses@.len() == self.aliases@.len()
        &&& self.session_pids@.len() == self.aliases@.len()
        &&& (self.aliases@.len() == 0 || self.selected_index < self.aliases@.len())
        &&& self.spinner_frame < SPINNER_LEN
        &&& distinct_keys(self.session_outputs@)
        &&& distinct_keys(self.session_start_times@)
        &&& distinct_keys(self.token_expiry@)
        &&& forall|k: int|
            0 <= k < self.filtered_indices@.len() ==> #[trigger] self.filtered_indices@[k]
                < self.aliases@.len()
        &&& self.instances_state.wf()
        &&& self.containers_state.wf()
        &&& self.terminal_state.wf()
    }

    /// A fresh application for the aliases read from `alias_file`, started
    /// at `now`: every session stopped, the first alias selected, the
    /// Sessions tab shown.
    pub fn new(aliases: Vec<Alias>, alias_file: String, now: u64) -> (app: App)
        ensures
            app.wf(),
            app.aliases@ == aliases@,
            forall|i: int| 0 <= i < app.session_statuses@.len() ==> (#[trigger] app.session_statuses@[i]).view()
                == StatusV::Stopped,
            forall|i: int| 0 <= i < app.session_pids@.len() ==> #[trigger] app.session_pids@[i] is None,
            app.selected_index == 0 && app.active_panel == ActivePanel::AliasList,
            app.input_mode == InputMode::Normal && app.search_query@.len() == 0
                && app.filtered_indices@.len() == 0,
            app.session_outputs@.len() == 0 && app.session_start_times@.len() == 0
                && app.token_expiry@.len() == 0,
            app.running_count == 0 && !app.should_quit && !app.show_confirm
                && app.confirm_action == ConfirmAction::Nothing,
            app.tick == 0 && app.spinner_frame == 0 && app.cursor_visible && app.toast is None,
            app.start_time == now,
            app.active_tab == AppTab::Sessions,
            app._alias_file@ == alias_file@,
            app.confirm_message@.len() == 0 && app.list_scroll_offset == 0,
            app.session_manager.sessions@.len() == 0,
            app.instances_state.fresh(),
            app.containers_state.fresh(),
            app.terminal_state.fresh(),
    {
        let n = aliases.len();
        let mut statuses: Vec<SessionStatus> = Vec::new();
        let mut pids: Vec<Option<u32>> = Vec::new();
        let mut i: usize = 0;
        while i < n
            invariant
                i <= n,
                statuses@.len() == i && pids@.len() == i,
                forall|k: int| 0 <= k < i ==> (#[trigger] statuses@[k]).view() == StatusV::Stopped,
                forall|k: int| 0 <= k < i ==> #[trigger] pids@[k] is None,
            decreases n - i,
        {
            statuses.push(SessionStatus::Stopped);
            pids.push(None);
            i = i + 1;
        }
        App {
            aliases,
            selected_index: 0,
            active_panel: ActivePanel::AliasList,
            input_mode: InputMode::Normal,
            search_query: String::new(),
            filtered_indices: Vec::new(),
            session_statuses: statuses,
            session_outputs: Vec::new(),
            session_pids: pids,
            session_start_times: Vec::new(),
            token_expiry: Vec::new(),
            session_manager: SessionManager::new(),
            running_count: 0,
            should_quit: false,
            show_confirm: false,
            confirm_message: String::new(),
            confirm_action: ConfirmAction::Nothing,
            _alias_file: alias_file,
            list_scroll_offset: 0,
            tick: 0,
            spinner_frame: 0,
            cursor_visible: true,
            toast: None,
            start_time: now,
            active_tab: AppTab::Sessions,
            instances_state: InstancesState::new(),
            containers_state: ContainersState::new(),
            terminal_state: TerminalState::new(),
        }
    }

    /// Advances the animation at time `now`: the tick count, the spinner
    /// frame (one per two ticks), the cursor blink (five ticks on, five off);
    /// a notification three seconds old goes away.
    pub fn on_tick(&mut self, now: u64)
        requires
            old(self).wf(),
            old(self).tick < u64::MAX,
        ensures
            final(self).wf(),
            final(self).tick == old(self).tick + 1,
            final(self).spinner_frame == (final(self).tick / 2) % 10,
            final(self).cursor_visible == ((final(self).tick / 5) % 2 == 0),
            final(self).toast == (match old(self).toast {
                Some(t) => if now >= t.created_at && now - t.created_at >= 3000 {
                    None
                } else {
                    Some(t)
                },
                None => None,
            }),
            *final(self) == (App {
                tick: final(self).tick,
                spinner_frame: final(self).spinner_frame,
                cursor_visible: final(self).cursor_visible,
                toast: final(self).toast,
                ..*old(self)
            }),
    {
        self.tick = self.tick + 1;
        self.spinner_frame = ((self.tick / 2) % 10) as usize;
        self.cursor_visible = (self.tick / 5) % 2 == 0;
        let expired = match &self.toast {
            Some(t) => now >= t.created_at && now - t.created_at >= 3000,
            None => false,
        };
        if expired {
            self.toast = None;
        }
    }

    /// Shows a notification from time `now`.
    pub fn show_toast(&mut self, message: String, kind: ToastKind, now: u64)
        ensures
            *final(self) == (App { toast: Some(Toast { message, kind, created_at: now }), ..*old(self) }),
    {
        self.toast = Some(Toast { message, kind, created_at: now });
    }

    /// The spinner's current frame.
    pub fn spinner(&self) -> (r: &'static str)
        requires
            self.spinner_frame < SPINNER_LEN,
        ensures
            r@ == spinner_frames()[self.spinner_frame as int],
    {
        let f = self.spinner_frame;
        if f == 0 {
            "⠋"
        } else if f == 1 {
            "⠙"
        } else if f == 2 {
            "⠹"
        } else if f == 3 {
            "⠸"
        } else if f == 4 {
            "⠼"
        } else if f == 5 {
            "⠴"
        } else if f == 6 {
            "⠦"
        } else if f == 7 {
            "⠧"
        } else if f == 8 {
            "⠇"
        } else {
            "⠏"
        }
    }
}

// ─── Durations as text ──────────────────────────────────────────────────────
/// A number with at least two digits (`{:02}`).
pub open spec fn two_digits(n: nat) -> Seq<char> {
    decimal2(n)
}

/// The time since start, in whole seconds: `HH:MM:SS`, or `MM:SS` under an
/// hour.
pub open spec fn clock_text(secs: nat) -> Seq<char> {
    let h = secs / 3600;
    let m = (secs % 3600) / 60;
    let s = secs % 60;
    if h > 0 {
        two_digits(h) + ":"@ + two_digits(m) + ":"@ + two_digits(s)
    } else {
        two_digits(m) + ":"@ + two_digits(s)
    }
}

/// A token's remaining time: `Hh MMm`, `Mm`, or `Ss`.
pub open spec fn remaining_text(secs: nat) -> Seq<char> {
    let h = secs / 3600;
    let m = (secs % 3600) / 60;
    if h > 0 {
        decimal(h) + "h "@ + two_digits(m) + "m"@
    } else if m > 0 {
        decimal(m) + "m"@
    } else {
        decimal(secs) + "s"@
    }
}

/// A session's running time: `Hh Mm Ss`, `Mm Ss`, or `Ss`.
pub open spec fn uptime_text(secs: nat) -> Seq<char> {
    let h = secs / 3600;
    let m = (secs % 3600) / 60;
    let s = secs % 60;
    if h > 0 {
        decimal(h) + "h "@ + decimal(m) + "m "@ + decimal(s) + "s"@
    } else if m > 0 {
        decimal(m) + "m "@ + decimal(s) + "s"@
    } else {
        decimal(s) + "s"@
    }
}

/// Whole seconds from `start` to `now` (milliseconds), 0 where `now` is
/// earlier.
pub open spec fn elapsed_secs(start: u64, now: u64) -> nat {
    if now >= start {
        ((now - start) / 1000) as nat
    } else {
        0
    }
}

fn secs_between(start: u64, now: u64) -> (r: u64)
    ensures
        r == elapsed_secs(start, now),
{
    if now >= start {
        (now - start) / 1000
    } else {
        0
    }
}

/// Writes `clock_text`.
pub fn clock_string(secs: u64) -> (r: String)
    ensures
        r@ == clock_text(secs as nat),
{
    let h = secs / 3600;
    let m = (secs % 3600) / 60;
    let s = secs % 60;
    let mut r = String::new();
    if h > 0 {
        r = u64_to_dec2(h);
        push_str(&mut r, ":");
    }
    let mm = u64_to_dec2(m);
    push_str(&mut r, mm.as_str());
    push_str(&mut r, ":");
    let ss = u64_to_dec2(s);
    push_str(&mut r, ss.as_str());
    r
}

/// Writes `remaining_text`.
pub fn remaining_string(secs: u64) -> (r: String)
    ensures
        r@ == remaining_text(secs as nat),
{
    let h = secs / 3600;
    let m = (secs % 3600) / 60;
    if h > 0 {
        let mut r = u64_to_dec(h);
        push_str(&mut r, "h ");
        push_str(&mut r, u64_to_dec2(m).as_str());
        push_str(&mut r, "m");
        r
    } else if m > 0 {
        let mut r = u64_to_dec(m);
        push_str(&mut r, "m");
        r
    } else {
        let mut r = u64_to_dec(secs);
        push_str(&mut r, "s");
        r
    }
}

/// Writes `uptime_text`.
pub fn uptime_string(secs: u64) -> (r: String)
    ensures
        r@ == uptime_text(secs as nat),
{
    let h = secs / 3600;
    let m = (secs % 3600) / 60;
    let s = secs % 60;
    let mut r = String::new();
    if h > 0 {
        r = u64_to_dec(h);
        push_str(&mut r, "h ");
    }
    if h > 0 || m > 0 {
        push_str(&mut r, u64_to_dec(m).as_str());
        push_str(&mut r, "m ");
    }
    push_str(&mut r, u64_to_dec(s).as_str());
    push_str(&mut r, "s");
    r
}

impl App {
    /// How long the application has run at time `now` (see `clock_text`).
    pub fn uptime_str(&self, now: u64) -> (r: String)
        ensures
            r@ == clock_text(elapsed_secs(self.start_time, now)),
    {
        clock_string(secs_between(self.start_time, now))
    }

    /// The remaining token time of the SSO session of `alias_name`, if known
    /// (see `remaining_text`).
    pub fn token_remaining_str(&self, alias_name: &str) -> (r: Option<String>)
        ensures
            match assoc_get(self.token_expiry@, alias_name@) {
                Some((_, secs)) => r matches Some(s) && s@ == remaining_text(secs as nat),
                None => r is None,
            },
    {
        match find_key(&self.token_expiry, alias_name) {
            Some(i) => Some(remaining_string(self.token_expiry[i].1.1)),
            None => None,
        }
    }

    /// How long the session of `alias_name` has run at time `now`, if it was
    /// started (see `uptime_text`).
    pub fn session_uptime(&self, alias_name: &str, now: u64) -> (r: Option<String>)
        ensures
            match assoc_get(self.session_start_times@, alias_name@) {
                Some(start) => r matches Some(s) && s@ == uptime_text(elapsed_secs(start, now)),
                None => r is None,
            },
    {
        match find_key(&self.session_start_times, alias_name) {
            Some(i) => Some(uptime_string(secs_between(self.session_start_times[i].1, now))),
            None => None,
        }
    }
}


// ─── Moving and searching ───────────────────────────────────────────────────
/// An alias matches the lowercased query `q`: by name or group, by the host
/// or local port of an SSM session (the port as it is), or by the SSO
/// session name.
pub open spec fn alias_matches(a: AliasV, q: Seq<char>) -> bool {
    ||| contains_seq(lowercase(a.name), q)
    ||| contains_seq(lowercase(a.group), q)
    ||| match a.kind {
        AliasKindV::SsmSession { host, local_port, .. } => contains_seq(
            lowercase(
                match host {
                    Some(h) => h,
                    None => Seq::empty(),
                },
            ),
            q,
        ) || contains_seq(
            match local_port {
                Some(p) => p,
                None => Seq::empty(),
            },
            q,
        ),
        AliasKindV::SsoLogin { session_name } => contains_seq(lowercase(session_name), q),
        AliasKindV::Other => false,
    }
}

/// The positions of the aliases, among the first `n`, that match `q`.
pub open spec fn alias_positions(v: Seq<AliasV>, q: Seq<char>, n: int) -> Seq<usize>
    decreases n,
{
    if n <= 0 {
        Seq::empty()
    } else {
        let rest = alias_positions(v, q, n - 1);
        if alias_matches(v[n - 1], q) {
            rest.push((n - 1) as usize)
        } else {
            rest
        }
    }
}

fn opt_str_or_empty(o: &Option<String>) -> (r: String)
    ensures
        r@ == (match opt_view(*o) {
            Some(s) => s,
            None => Seq::empty(),
        }),
{
    match o {
        Some(s) => s.clone(),
        None => String::new(),
    }
}

fn alias_matches_exec(a: &Alias, q: &String) -> (r: bool)
    ensures
        r == alias_matches(a.view(), q@),
{
    let name = to_lower(a.name.as_str());
    if str_contains(name.as_str(), q.as_str()) {
        return true;
    }
    let group = to_lower(a.group.as_str());
    if str_contains(group.as_str(), q.as_str()) {
        return true;
    }
    match &a.kind {
        AliasKind::SsmSession { host, local_port, .. } => {
            let h = to_lower(opt_str_or_empty(host).as_str());
            let p = opt_str_or_empty(local_port);
            str_contains(h.as_str(), q.as_str()) || str_contains(p.as_str(), q.as_str())
        },
        AliasKind::SsoLogin { session_name } => {
            let sn = to_lower(session_name.as_str());
            str_contains(sn.as_str(), q.as_str())
        },
        AliasKind::Other => false,
    }
}

fn position_in(v: &Vec<usize>, x: usize) -> (r: Option<usize>)
    ensures
        match r {
            Some(i) => position_of(v@, x, 0) == Some(i as int) && i < v@.len(),
            None => position_of(v@, x, 0) is None,
        },
{
    let mut i: usize = 0;
    while i < v.len()
        invariant
            i <= v@.len(),
            position_of(v@, x, 0) == position_of(v@, x, i as int),
        decreases v@.len() - i,
    {
        if v[i] == x {
            return Some(i);
        }
        i = i + 1;
    }
    None
}

/// The matches of the query `q` among the aliases of `a`; none for an
/// empty query.
pub open spec fn filter_for(a: App, q: Seq<char>) -> Seq<usize> {
    if q.len() == 0 {
        Seq::empty()
    } else {
        alias_positions(aliases_view(a.aliases@), lowercase(q), a.aliases@.len() as int)
    }
}

/// `n` is `a` searching for `q`: the aliases filtered by `q`, the selected
/// alias kept where it is among a non-empty result, else the first match
/// selected.
pub open spec fn searched_as(a: App, q: Seq<char>, n: App) -> bool {
    let f = filter_for(a, q);
    &&& n.search_query@ == q
    &&& n.filtered_indices@ == f
    &&& n.selected_index == (if f.len() > 0 && !f.contains(a.selected_index) {
        f[0]
    } else {
        a.selected_index
    })
    &&& n == (App {
        search_query: n.search_query,
        filtered_indices: n.filtered_indices,
        selected_index: n.selected_index,
        ..a
    })
}

/// The application after `next`.
pub open spec fn moved_next(o: App, n: App) -> bool {
    &&& n.wf()
    &&& n == (App {
        selected_index: ({
            let f = o.filtered_indices@;
            if o.aliases@.len() == 0 {
                o.selected_index
            } else if o.searching() {
                let pos = match position_of(f, o.selected_index, 0) {
                    Some(p) => p,
                    None => 0,
                };
                f[(pos + 1) % (f.len() as int)]
            } else {
                ((o.selected_index + 1) % (o.aliases@.len() as int)) as usize
            }
        }),
        ..o
    })
}

/// The application after `previous`.
pub open spec fn moved_previous(o: App, n: App) -> bool {
    &&& n.wf()
    &&& n == (App {
        selected_index: ({
            let f = o.filtered_indices@;
            if o.aliases@.len() == 0 {
                o.selected_index
            } else if o.searching() {
                let pos = match position_of(f, o.selected_index, 0) {
                    Some(p) => p,
                    None => 0,
                };
                f[if pos == 0 {
                    f.len() - 1
                } else {
                    pos - 1
                }]
            } else if o.selected_index == 0 {
                (o.aliases@.len() - 1) as usize
            } else {
                (o.selected_index - 1) as usize
            }
        }),
        ..o
    })
}

/// The application after `toggle_panel`.
pub open spec fn panel_toggled(o: App, n: App) -> bool {
    &&& n == (App {
        active_panel: if o.active_panel == ActivePanel::AliasList {
            ActivePanel::DetailPanel
        } else {
            ActivePanel::AliasList
        },
        ..o
    })
}

impl App {
    /// Whether a search narrows the list: a query is typed and it matched.
    pub open spec fn searching(&self) -> bool {
        self.search_query@.len() > 0 && self.filtered_indices@.len() > 0
    }

    /// The next alias: among the matches while searching (from the selected
    /// one's place among them, or the first), else among all; wrapping.
    pub fn next(&mut self)
        requires
            old(self).wf(),
        ensures
            moved_next(*old(self), *final(self)),
    {
        let n = self.aliases.len();
        if n == 0 {
            return ;
        }
        if self.search_query.as_str().unicode_len() > 0 && self.filtered_indices.len() > 0 {
            let pos = match position_in(&self.filtered_indices, self.selected_index) {
                Some(p) => p,
                None => 0,
            };
            let k = ((pos as u128 + 1) % (self.filtered_indices.len() as u128)) as usize;
            self.selected_index = self.filtered_indices[k];
        } else {
            self.selected_index = ((self.selected_index as u128 + 1) % (n as u128)) as usize;
        }
    }

    /// The previous alias, as `next` but backwards.
    pub fn previous(&mut self)
        requires
            old(self).wf(),
        ensures
            moved_previous(*old(self), *final(self)),
    {
        let n = self.aliases.len();
        if n == 0 {
            return ;
        }
        if self.search_query.as_str().unicode_len() > 0 && self.filtered_indices.len() > 0 {
            let pos = match position_in(&self.filtered_indices, self.selected_index) {
                Some(p) => p,
                None => 0,
            };
            let k = if pos == 0 {
                self.filtered_indices.len() - 1
            } else {
                pos - 1
            };
            self.selected_index = self.filtered_indices[k];
        } else if self.selected_index == 0 {
            self.selected_index = n - 1;
        } else {
            self.selected_index = self.selected_index - 1;
        }
    }

    /// Switches between the alias list and the detail panel.
    pub fn toggle_panel(&mut self)
        ensures
            panel_toggled(*old(self), *final(self)),
    {
        self.active_panel = match self.active_panel {
            ActivePanel::AliasList => ActivePanel::DetailPanel,
            ActivePanel::DetailPanel => ActivePanel::AliasList,
        };
    }

    /// Filters the aliases by the search query (see `alias_matches`); where
    /// the selected alias is not among a non-empty result, the first match
    /// is selected. An empty query clears the filter.
    pub fn update_search(&mut self)
        requires
            old(self).wf(),
        ensures
            final(self).wf(),
            searched_as(*old(self), old(self).search_query@, *final(self)),
            final(self).search_query == old(self).search_query,
    {
        if self.search_query.as_str().unicode_len() == 0 {
            self.filtered_indices = Vec::new();
            return ;
        }
        let query = to_lower(self.search_query.as_str());
        let ghost av = aliases_view(self.aliases@);
        let mut found: Vec<usize> = Vec::new();
        let mut i: usize = 0;
        while i < self.aliases.len()
            invariant
                i <= self.aliases@.len(),
                av == aliases_view(self.aliases@),
                found@ == alias_positions(av, query@, i as int),
                forall|k: int| 0 <= k < found@.len() ==> #[trigger] found@[k] < i,
            decreases self.aliases@.len() - i,
        {
            assert(av[i as int] == self.aliases@[i as int].view());
            if alias_matches_exec(&self.aliases[i], &query) {
                found.push(i);
            }
            i = i + 1;
        }
        let present = match position_in(&found, self.selected_index) {
            Some(_) => true,
            None => false,
        };
        proof {
            crate::instances::lemma_position_of_pub(found@, self.selected_index, 0);
        }
        if found.len() > 0 && !present {
            self.selected_index = found[0];
        }
        self.filtered_indices = found;
    }

    /// Adds `c` to the search query and filters again.
    pub fn push_search_char(&mut self, c: char)
        requires
            old(self).wf(),
        ensures
            final(self).wf(),
            searched_as(*old(self), old(self).search_query@.push(c), *final(self)),
    {
        push_char(&mut self.search_query, c);
        self.update_search();
    }

    /// Removes the last character of the search query and filters again.
    pub fn pop_search_char(&mut self)
        requires
            old(self).wf(),
        ensures
            final(self).wf(),
            searched_as(*old(self), without_last(old(self).search_query@), *final(self)),
    {
        pop_last(&mut self.search_query);
        self.update_search();
    }
}


// ─── Starting and stopping sessions ─────────────────────────────────────────
/// What to run to start the session of an alias.
pub struct StartCommand {
    /// The alias's position.
    pub index: usize,
    pub name: String,
    pub command: String,
    pub kind: SessionKind,
    /// The shell command to run (`sh -c`).
    pub shell_command: String,
    /// Whether the process gets a stdin pipe.
    pub stdin_piped: bool,
}

/// The kind of session an alias starts.
pub open spec fn session_kind_of(k: AliasKindV) -> KindV {
    match k {
        AliasKindV::SsoLogin { session_name } => KindV::SsoLogin { session_name },
        AliasKindV::SsmSession { .. } => KindV::SsmSession,
        AliasKindV::Other => KindV::Other,
    }
}

fn session_kind_exec(k: &AliasKind) -> (r: SessionKind)
    ensures
        r.view() == session_kind_of(k.view()),
{
    match k {
        AliasKind::SsoLogin { session_name } => SessionKind::SsoLogin { session_name: session_name.clone() },
        AliasKind::SsmSession { .. } => SessionKind::SsmSession,
        AliasKind::Other => SessionKind::Other,
    }
}

/// The output lines of `name` with `line` added (an absent name starts with
/// none).
pub open spec fn outputs_push(m: Seq<(String, Vec<String>)>, name: Seq<char>, line: Seq<char>) -> Seq<Seq<char>> {
    match assoc_get(m, name) {
        Some(v) => strs_view(v@).push(line),
        None => seq![line],
    }
}

/// `n` is `o` with the alias at `index` shown stopped at time `now`: its
/// status stopped, no process id, no start time, and a notification.
pub open spec fn marked_stopped(o: App, n: App, index: int, now: u64) -> bool {
    let name = o.aliases@[index].name@;
    &&& n.session_statuses@.len() == o.session_statuses@.len()
    &&& n.session_statuses@[index].view() == StatusV::Stopped
    &&& forall|j: int| 0 <= j < n.session_statuses@.len() && j != index ==> #[trigger] n.session_statuses@[j]
        == o.session_statuses@[j]
    &&& n.session_pids@ == o.session_pids@.update(index, None)
    &&& assoc_get(n.session_start_times@, name) is None
    &&& forall|k: Seq<char>| k != name ==> #[trigger] assoc_get(n.session_start_times@, k) == assoc_get(
        o.session_start_times@,
        k,
    )
    &&& n.toast matches Some(t) && t.message@ == ICON_STOP@ + " "@ + name + " stopped"@ && t.kind
        == ToastKind::Info && t.created_at == now
    &&& n == (App {
        session_statuses: n.session_statuses,
        session_pids: n.session_pids,
        session_start_times: n.session_start_times,
        toast: n.toast,
        ..o
    })
}

/// `n` is `o` with the failure `err` of the alias named `name` reported at
/// time `now` (see `report_error`).
pub open spec fn error_reported(o: App, n: App, name: Seq<char>, err: Seq<char>, now: u64) -> bool {
    &&& assoc_get(n.session_outputs@, name) matches Some(v) && strs_view(v@) == outputs_push(
        o.session_outputs@,
        name,
        ">>> Error: "@ + err,
    )
    &&& forall|k: Seq<char>| k != name ==> #[trigger] assoc_get(n.session_outputs@, k) == assoc_get(
        o.session_outputs@,
        k,
    )
    &&& n.toast matches Some(t) && t.message@ == ICON_CROSS@ + " "@ + err && t.kind == ToastKind::Error
        && t.created_at == now
    &&& n == (App { session_outputs: n.session_outputs, toast: n.toast, ..o })
}

/// The application after `start_selected(now)` returned `r`.
pub open spec fn start_attempted(o: App, n: App, now: u64, r: Option<StartCommand>) -> bool {
    &&& n.wf()
    &&& o.aliases@.len() == 0 ==> r is None && n == o
    &&& o.aliases@.len() > 0 ==> {
        let a = o.aliases@[o.selected_index as int].view();
        match sview(o.session_manager, a.name) {
            Some(s) if active(s.status) => r is None && error_reported(o, n, a.name, "Session already active"@, now),
            _ => (r matches Some(c) && c.index == o.selected_index && c.name@ == a.name
                && c.command@ == a.command && c.kind.view() == session_kind_of(a.kind)
                && c.shell_command@ == quote_parameters_spec(a.command) && c.stdin_piped == (
            session_kind_of(a.kind) is SsmSession) && n == o),
        }
    }
}

/// The application after `stop_selected(now)` returned `r`.
pub open spec fn stop_attempted(o: App, n: App, now: u64, r: Option<usize>) -> bool {
    &&& n.wf()
    &&& o.aliases@.len() == 0 ==> r is None && n == o
    &&& o.aliases@.len() > 0 ==> {
        let idx = o.selected_index;
        let name = o.aliases@[idx as int].name@;
        match sview(o.session_manager, name) {
            None => r is None && error_reported(o, n, name, "Session not found"@, now),
            Some(s) => {
                &&& sview(n.session_manager, name) == Some(crate::session::stop_outcome(s).1)
                &&& others_unchanged(o.session_manager, n.session_manager, name)
                &&& if crate::session::stop_outcome(s).0 {
                    r == Some(idx) && n == (App { session_manager: n.session_manager, ..o })
                } else {
                    r is None && marked_stopped(
                        App { session_manager: n.session_manager, ..o },
                        n,
                        idx as int,
                        now,
                    )
                }
            },
        }
    }
}

/// The application after `stop_all_sessions(now)` returned `r`.
pub open spec fn all_stopping(o: App, n: App, now: u64, r: Vec<String>) -> bool {
    &&& n.wf()
    &&& forall|k: Seq<char>| #[trigger] sview(n.session_manager, k) == stopped_view(o.session_manager, k)
    &&& forall|k: Seq<char>| #[trigger] has_name(r@, k) == must_kill(o.session_manager, k)
    &&& forall|i: int|
        0 <= i < n.session_statuses@.len() ==> (
        #[trigger] n.session_statuses@[i]).view() == StatusV::Stopped
    &&& forall|i: int| 0 <= i < n.session_pids@.len() ==> #[trigger] n.session_pids@[i] is None
    &&& n.session_start_times@.len() == 0
    &&& n.toast matches Some(t) && t.message@ == ICON_STOP@ + " All sessions stopped"@
        && t.kind == ToastKind::Info && t.created_at == now
    &&& n == (App {
        session_manager: n.session_manager,
        session_statuses: n.session_statuses,
        session_pids: n.session_pids,
        session_start_times: n.session_start_times,
        toast: n.toast,
        ..o
    })
}

impl App {
    /// Adds a line to the output shown for `name`.
    pub fn push_output_line(&mut self, name: &str, line: String)
        requires
            old(self).wf(),
        ensures
            final(self).wf(),
            assoc_get(final(self).session_outputs@, name@) matches Some(v) && strs_view(v@)
                == outputs_push(old(self).session_outputs@, name@, line@),
            forall|n: Seq<char>|
                n != name@ ==> #[trigger] assoc_get(final(self).session_outputs@, n) == assoc_get(
                    old(self).session_outputs@,
                    n,
                ),
            *final(self) == (App { session_outputs: final(self).session_outputs, ..*old(self) }),
    {
        let mut lines = match find_key(&self.session_outputs, name) {
            Some(i) => {
                let mut v: Vec<String> = Vec::new();
                let src = &self.session_outputs[i].1;
                let mut k: usize = 0;
                while k < src.len()
                    invariant
                        k <= src@.len(),
                        v@.len() == k,
                        forall|t: int| 0 <= t < k ==> (#[trigger] v@[t])@ == src@[t]@,
                    decreases src@.len() - k,
                {
                    v.push(src[k].clone());
                    k = k + 1;
                }
                assert(strs_view(v@) =~= strs_view(src@));
                v
            },
            None => Vec::new(),
        };
        let ghost before = strs_view(lines@);
        let ghost lv = line@;
        lines.push(line);
        assert(strs_view(lines@) =~= before.push(lv));
        assert(strs_view(lines@) == outputs_push(old(self).session_outputs@, name@, lv)) by {
            if assoc_get(old(self).session_outputs@, name@) is None {
                assert(before =~= Seq::<Seq<char>>::empty());
            }
        }
        assoc_set(&mut self.session_outputs, name, lines);
    }

    /// Records a failure for `name`: an error line in its output and an
    /// error notification from time `now`.
    pub fn report_error(&mut self, name: &str, err: &str, now: u64)
        requires
            old(self).wf(),
        ensures
            final(self).wf(),
            error_reported(*old(self), *final(self), name@, err@, now),
    {
        self.push_output_line(name, concat(">>> Error: ", err));
        let mut msg = str_to_string(ICON_CROSS);
        push_str(&mut msg, " ");
        push_str(&mut msg, err);
        self.show_toast(msg, ToastKind::Error, now);
    }

    /// Starts the session of the selected alias: where the session manager
    /// refuses (the session is active), the error is reported at time `now`
    /// and nothing is run; otherwise returns what to run.
    pub fn start_selected(&mut self, now: u64) -> (r: Option<StartCommand>)
        requires
            old(self).wf(),
        ensures
            start_attempted(*old(self), *final(self), now, r),
    {
        if self.aliases.len() == 0 {
            return None;
        }
        let idx = self.selected_index;
        let name = self.aliases[idx].name.clone();
        let command = self.aliases[idx].command.clone();
        let kind = session_kind_exec(&self.aliases[idx].kind);
        match self.session_manager.start_plan(name.as_str(), command.as_str()) {
            Err(e) => {
                self.report_error(name.as_str(), e.as_str(), now);
                None
            },
            Ok(shell) => {
                let piped = stdin_piped(&kind);
                Some(StartCommand { index: idx, name, command, kind, shell_command: shell, stdin_piped: piped })
            },
        }
    }

    /// Records that the session of `cmd` started with process id `pid` at
    /// time `now`: the session manager holds it running, the alias shows it
    /// running with that process id since `now`, and a notification says so.
    pub fn on_started(&mut self, cmd: StartCommand, pid: Option<u32>, now: u64)
        requires
            old(self).wf(),
            cmd.index < old(self).aliases@.len(),
        ensures
            final(self).wf(),
            sview(final(self).session_manager, cmd.name@) matches Some(s) && s.status is Running
                && s.pid == pid && s.has_child,
            final(self).session_statuses@[cmd.index as int].view() == StatusV::Running,
            final(self).session_pids@[cmd.index as int] == pid,
            assoc_get(final(self).session_start_times@, cmd.name@) == Some(now),
            final(self).toast matches Some(t) && t.message@ == ICON_CHECK@ + " "@ + cmd.name@
                + " started"@ && t.kind == ToastKind::Success && t.created_at == now,
    {
        let idx = cmd.index;
        let name = cmd.name;
        self.session_manager.record_started(name.as_str(), cmd.command.as_str(), cmd.kind, pid);
        self.session_statuses.set(idx, SessionStatus::Running);
        let p = self.session_manager.get_pid(name.as_str());
        self.session_pids.set(idx, p);
        assoc_set(&mut self.session_start_times, name.as_str(), now);
        let mut msg = str_to_string(ICON_CHECK);
        push_str(&mut msg, " ");
        push_str(&mut msg, name.as_str());
        push_str(&mut msg, " started");
        self.show_toast(msg, ToastKind::Success, now);
    }

    /// Records that the alias at `index` is stopped, at time `now`.
    pub fn on_stopped(&mut self, index: usize, now: u64)
        requires
            old(self).wf(),
            index < old(self).aliases@.len(),
        ensures
            final(self).wf(),
            marked_stopped(*old(self), *final(self), index as int, now),
    {
        let name = self.aliases[index].name.clone();
        self.session_statuses.set(index, SessionStatus::Stopped);
        self.session_pids.set(index, None);
        assoc_remove(&mut self.session_start_times, name.as_str());
        let mut msg = str_to_string(ICON_STOP);
        push_str(&mut msg, " ");
        push_str(&mut msg, name.as_str());
        push_str(&mut msg, " stopped");
        self.show_toast(msg, ToastKind::Info, now);
    }

    /// Stops the session of the selected alias: an unknown session is
    /// reported; a session whose process must be killed is returned as the
    /// alias's position (then `on_killed` or `report_error`); otherwise the
    /// alias is marked stopped at once.
    pub fn stop_selected(&mut self, now: u64) -> (r: Option<usize>)
        requires
            old(self).wf(),
        ensures
            stop_attempted(*old(self), *final(self), now, r),
    {
        if self.aliases.len() == 0 {
            return None;
        }
        let idx = self.selected_index;
        let name = self.aliases[idx].name.clone();
        match self.session_manager.stop_session(name.as_str()) {
            Err(e) => {
                self.report_error(name.as_str(), e.as_str(), now);
                None
            },
            Ok(kill) => {
                if kill {
                    Some(idx)
                } else {
                    self.on_stopped(idx, now);
                    None
                }
            },
        }
    }

    /// Records that the process of the alias at `index` was killed: the
    /// session manager and the alias show it stopped.
    pub fn on_killed(&mut self, index: usize, now: u64)
        requires
            old(self).wf(),
            index < old(self).aliases@.len(),
        ensures
            final(self).wf(),
            final(self).session_statuses@[index as int].view() == StatusV::Stopped,
            final(self).session_pids@[index as int] is None,
    {
        let name = self.aliases[index].name.clone();
        self.session_manager.record_killed(name.as_str());
        self.on_stopped(index, now);
    }

    /// Stops every session of the session manager, as `stop_session` does
    /// each, and marks every alias stopped at time `now` (see
    /// `all_stopped`); returns the names whose processes must be killed
    /// (then `record_killed` each).
    pub fn stop_all_sessions(&mut self, now: u64) -> (r: Vec<String>)
        requires
            old(self).wf(),
        ensures
            all_stopping(*old(self), *final(self), now, r),
    {
        let kill = self.session_manager.stop_all();
        self.all_stopped(now);
        kill
    }

    /// Marks every alias stopped with no process, forgets the start times,
    /// and notifies at time `now`.
    pub fn all_stopped(&mut self, now: u64)
        requires
            old(self).wf(),
        ensures
            final(self).wf(),
            forall|i: int|
                0 <= i < final(self).session_statuses@.len() ==> (
                #[trigger] final(self).session_statuses@[i]).view() == StatusV::Stopped,
            forall|i: int| 0 <= i < final(self).session_pids@.len() ==> #[trigger] final(self).session_pids@[i] is None,
            final(self).session_start_times@.len() == 0,
            final(self).toast matches Some(t) && t.message@ == ICON_STOP@ + " All sessions stopped"@
                && t.kind == ToastKind::Info && t.created_at == now,
            *final(self) == (App {
                session_statuses: final(self).session_statuses,
                session_pids: final(self).session_pids,
                session_start_times: final(self).session_start_times,
                toast: final(self).toast,
                ..*old(self)
            }),
    {
        let n = self.session_statuses.len();
        let mut i: usize = 0;
        while i < n
            invariant
                i <= n == self.session_statuses@.len() == self.session_pids@.len(),
                self.wf(),
                *self == (App {
                    session_statuses: self.session_statuses,
                    session_pids: self.session_pids,
                    ..*old(self)
                }),
                forall|k: int| 0 <= k < i ==> (#[trigger] self.session_statuses@[k]).view() == StatusV::Stopped,
                forall|k: int| 0 <= k < i ==> #[trigger] self.session_pids@[k] is None,
            decreases n - i,
        {
            self.session_statuses.set(i, SessionStatus::Stopped);
            self.session_pids.set(i, None);
            i = i + 1;
        }
        self.session_start_times = Vec::new();
        let mut msg = str_to_string(ICON_STOP);
        push_str(&mut msg, " All sessions stopped");
        self.show_toast(msg, ToastKind::Info, now);
    }

    /// Takes an output line of the session `name`: the session manager keeps
    /// it (its last lines) and it is shown for the alias.
    pub fn on_output_message(&mut self, name: &str, line: String)
        requires
            old(self).wf(),
        ensures
            final(self).wf(),
            assoc_get(final(self).session_outputs@, name@) matches Some(v) && strs_view(v@)
                == outputs_push(old(self).session_outputs@, name@, line@),
    {
        self.session_manager.append_output(name, line.clone());
        self.push_output_line(name, line);
    }
}

// ─── Refreshing from the session manager ────────────────────────────────────
/// The status the session manager holds for `name` (stopped where it has no
/// session of that name).
pub open spec fn status_of(m: SessionManager, name: Seq<char>) -> StatusV {
    match sview(m, name) {
        Some(s) => s.status,
        None => StatusV::Stopped,
    }
}

/// The process id the session manager holds for `name`.
pub open spec fn pid_of(m: SessionManager, name: Seq<char>) -> Option<u32> {
    match sview(m, name) {
        Some(s) => s.pid,
        None => None,
    }
}

/// The token expiry text and remaining seconds the session manager holds for
/// `name`, where it holds both.
pub open spec fn expiry_of(m: SessionManager, name: Seq<char>) -> Option<(Seq<char>, u64)> {
    match sview(m, name) {
        Some(s) => match (s.token_expires_at, s.token_remaining_secs) {
            (Some(t), Some(r)) => Some((t, r)),
            _ => None,
        },
        None => None,
    }
}

/// The output lines the session manager holds for `name`.
pub open spec fn output_of(m: SessionManager, name: Seq<char>) -> Seq<Seq<char>> {
    match sview(m, name) {
        Some(s) => s.output,
        None => Seq::empty(),
    }
}

/// Whether one of the first `n` aliases is named `name`.
pub open spec fn alias_named(v: Seq<Alias>, n: int, name: Seq<char>) -> bool {
    exists|i: int| 0 <= i < n && (#[trigger] v[i]).name@ == name
}

/// How many of the statuses are active.
pub open spec fn count_active(s: Seq<SessionStatus>) -> nat
    decreases s.len(),
{
    if s.len() == 0 {
        0
    } else {
        count_active(s.drop_last()) + if active(s.last().view()) {
            1nat
        } else {
            0nat
        }
    }
}

/// The state `refresh_statuses` keeps after the first `n` aliases of `old`.
pub open spec fn refreshed_upto(old: App, new: App, n: int) -> bool {
    let m = old.session_manager;
    let v = old.aliases@;
    &&& new.session_statuses@.len() == v.len() && new.session_pids@.len() == v.len()
    &&& forall|i: int| 0 <= i < n ==> (#[trigger] new.session_statuses@[i]).view() == status_of(m, v[i].name@)
    &&& forall|i: int| 0 <= i < n ==> #[trigger] new.session_pids@[i] == pid_of(m, v[i].name@)
    &&& forall|i: int| n <= i < v.len() ==> #[trigger] new.session_statuses@[i] == old.session_statuses@[i]
    &&& forall|i: int| n <= i < v.len() ==> #[trigger] new.session_pids@[i] == old.session_pids@[i]
    &&& forall|k: Seq<char>| #[trigger] assoc_get(new.session_start_times@, k) == if alias_named(v, n, k)
        && !active(status_of(m, k)) {
        None
    } else {
        assoc_get(old.session_start_times@, k)
    }
    &&& forall|k: Seq<char>| #[trigger] expiry_view(assoc_get(new.token_expiry@, k)) == if alias_named(v, n, k) {
        expiry_of(m, k)
    } else {
        expiry_view(assoc_get(old.token_expiry@, k))
    }
    &&& forall|k: Seq<char>| #[trigger] shown_output(assoc_get(new.session_outputs@, k)) == if alias_named(v, n, k)
        && output_of(m, k).len() > 0 {
        Some(output_of(m, k))
    } else {
        shown_output(assoc_get(old.session_outputs@, k))
    }
}

/// The lines of an entry of the shown outputs.
pub open spec fn shown_output(o: Option<Vec<String>>) -> Option<Seq<Seq<char>>> {
    match o {
        Some(v) => Some(strs_view(v@)),
        None => None,
    }
}

/// One alias's refresh: the alias at `i`, named `name`, read from `m`.
spec fn refresh_step(m: SessionManager, b: App, a: App, i: int, name: Seq<char>) -> bool {
    &&& a.session_statuses@.len() == b.session_statuses@.len()
    &&& a.session_statuses@[i].view() == status_of(m, name)
    &&& forall|j: int| 0 <= j < a.session_statuses@.len() && j != i ==> #[trigger] a.session_statuses@[j]
        == b.session_statuses@[j]
    &&& a.session_pids@ == b.session_pids@.update(i, pid_of(m, name))
    &&& forall|k: Seq<char>| #[trigger] assoc_get(a.session_start_times@, k) == if k == name && !active(
        status_of(m, name),
    ) {
        None
    } else {
        assoc_get(b.session_start_times@, k)
    }
    &&& forall|k: Seq<char>| #[trigger] expiry_view(assoc_get(a.token_expiry@, k)) == if k == name {
        expiry_of(m, name)
    } else {
        expiry_view(assoc_get(b.token_expiry@, k))
    }
    &&& forall|k: Seq<char>| #[trigger] shown_output(assoc_get(a.session_outputs@, k)) == if k == name
        && output_of(m, name).len() > 0 {
        Some(output_of(m, name))
    } else {
        shown_output(assoc_get(b.session_outputs@, k))
    }
}

proof fn lemma_refresh_step(o: App, b: App, a: App, i: int)
    requires
        0 <= i < o.aliases@.len(),
        refreshed_upto(o, b, i),
        refresh_step(o.session_manager, b, a, i, o.aliases@[i].name@),
    ensures
        refreshed_upto(o, a, i + 1),
{
    let v = o.aliases@;
    let name = v[i].name@;
    assert forall|k: Seq<char>| alias_named(v, i + 1, k) == (alias_named(v, i, k) || k == name) by {
        if alias_named(v, i + 1, k) && k != name {
            let j = choose|j: int| 0 <= j < i + 1 && (#[trigger] v[j]).name@ == k;
            assert(j < i);
        }
        if k == name {
            assert(v[i].name@ == k);
        }
    }
    assert forall|j: int| 0 <= j < i + 1 implies (#[trigger] a.session_statuses@[j]).view() == status_of(
        o.session_manager,
        v[j].name@,
    ) by {
        if j < i {
            assert(a.session_statuses@[j] == b.session_statuses@[j]);
        }
    }
    assert forall|j: int| i + 1 <= j < v.len() implies #[trigger] a.session_statuses@[j]
        == o.session_statuses@[j] by {
        assert(a.session_statuses@[j] == b.session_statuses@[j]);
    }
}

impl App {
    /// Reads the session of the alias at `i` from the session manager;
    /// returns whether it is active.
    fn refresh_one(&mut self, i: usize) -> (act: bool)
        requires
            old(self).wf(),
            i < old(self).aliases@.len(),
        ensures
            final(self).wf(),
            refresh_step(
                old(self).session_manager,
                *old(self),
                *final(self),
                i as int,
                old(self).aliases@[i as int].name@,
            ),
            act == active(status_of(old(self).session_manager, old(self).aliases@[i as int].name@)),
            *final(self) == (App {
                session_statuses: final(self).session_statuses,
                session_pids: final(self).session_pids,
                session_start_times: final(self).session_start_times,
                token_expiry: final(self).token_expiry,
                session_outputs: final(self).session_outputs,
                ..*old(self)
            }),
    {
        let name = self.aliases[i].name.clone();
        let status = self.session_manager.get_status(name.as_str());
        let is_active = match &status {
            SessionStatus::Running | SessionStatus::Starting | SessionStatus::Connected => true,
            _ => false,
        };
        if !is_active {
            assoc_remove(&mut self.session_start_times, name.as_str());
        }
        self.session_statuses.set(i, status);
        let pid = self.session_manager.get_pid(name.as_str());
        self.session_pids.set(i, pid);
        let (exp_str, exp_secs) = self.session_manager.get_token_expiry(name.as_str());
        match (exp_str, exp_secs) {
            (Some(s), Some(r)) => assoc_set(&mut self.token_expiry, name.as_str(), (s, r)),
            _ => assoc_remove(&mut self.token_expiry, name.as_str()),
        }
        let output = self.session_manager.get_output(name.as_str());
        if output.len() > 0 {
            proof {
                assert(strs_view(output@) =~= lines_view(output@));
            }
            assoc_set(&mut self.session_outputs, name.as_str(), output);
        } else {
            proof {
                assert(lines_view(output@).len() == 0);
            }
        }
        is_active
    }

    /// Reads every alias's session from the session manager: its status, its
    /// process id, its token expiry and its output (where it has any), and
    /// counts the active sessions; an inactive session's start time is
    /// forgotten.
    pub fn refresh_statuses(&mut self)
        requires
            old(self).wf(),
        ensures
            final(self).wf(),
            refreshed_upto(*old(self), *final(self), old(self).aliases@.len() as int),
            final(self).running_count == count_active(final(self).session_statuses@),
            *final(self) == (App {
                session_statuses: final(self).session_statuses,
                session_pids: final(self).session_pids,
                session_start_times: final(self).session_start_times,
                token_expiry: final(self).token_expiry,
                session_outputs: final(self).session_outputs,
                running_count: final(self).running_count,
                ..*old(self)
            }),
    {
        let n = self.aliases.len();
        let mut count: usize = 0;
        let mut i: usize = 0;
        proof {
            assert(self.session_statuses@.take(0) =~= Seq::<SessionStatus>::empty());
        }
        while i < n
            invariant
                i <= n == self.aliases@.len(),
                self.wf(),
                refreshed_upto(*old(self), *self, i as int),
                count <= i,
                count == count_active(self.session_statuses@.take(i as int)),
                *self == (App {
                    session_statuses: self.session_statuses,
                    session_pids: self.session_pids,
                    session_start_times: self.session_start_times,
                    token_expiry: self.token_expiry,
                    session_outputs: self.session_outputs,
                    ..*old(self)
                }),
            decreases n - i,
        {
            let ghost before = *self;
            let act = self.refresh_one(i);
            if act {
                count = count + 1;
            }
            proof {
                lemma_refresh_step(*old(self), before, *self, i as int);
                assert(self.session_statuses@.take(i + 1).drop_last() =~= before.session_statuses@.take(
                    i as int,
                ));
            }
            i = i + 1;
        }
        self.running_count = count;
        proof {
            assert(self.session_statuses@.take(n as int) =~= self.session_statuses@);
        }
    }
}

} // verus!
