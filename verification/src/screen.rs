//! What the screen shows: the marks, labels, hints and list rows the
//! terminal front end draws, computed from the application's state.
use vstd::prelude::*;
use crate::text::{
    chars_of, string_of, slice_vec, str_to_string, concat, push_str, to_upper, uppercase, starts_with,
    contains_seq, str_contains, matches_at, occurs_at, join, join_strings,
};
use crate::gui::aws::{split_chars, split_at_char, tag_pairs, tag_pairs_exec};
use crate::session::{SessionStatus, StatusV, active};
use crate::app::{App, AppTab, InputMode, spinner_frames, uptime_text, elapsed_secs};
use crate::parser::{Alias, AliasKind, AliasKindV};
use crate::assoc::assoc_get;
use crate::instances::{InstancesState, InstanceFocus};
use crate::containers::{ContainersFocus, EcsTreeItem, EcsTreeItemV, EcsTreeItemKind};
use crate::text::{signed_decimal, i64_to_dec};
use crate::text::{ws_end, lemma_ws_end, skip_ws, utf8_len, lemma_utf8_len_concat, bytes_of};
use crate::parser::{nonws_end, lemma_nonws_end, skip_nonws};
use crate::session::lines_view;

verus! {

// ─── Tones ──────────────────────────────────────────────────────────────────
/// The colour a piece of text is drawn in, by what it means.
#[derive(Debug, Clone, Copy, PartialEq, Eq, Structural)]
pub enum Tone {
    /// Barely visible (rules, idle marks).
    Faint,
    /// Secondary text.
    Dim,
    /// Ordinary text.
    Plain,
    /// Emphasised text.
    Bright,
    /// Running, active, healthy.
    Good,
    /// Connected.
    Linked,
    /// Starting, pending, expired.
    Warn,
    /// Failed.
    Bad,
    /// Commands and selection.
    Accent,
}

// ─── Session status ─────────────────────────────────────────────────────────
/// The mark of a session status in lists, with its tone; a starting
/// session shows the spinner frame `spinner`.
pub open spec fn status_mark_of(st: StatusV, spinner: Seq<char>) -> (Seq<char>, Tone) {
    match st {
        StatusV::Stopped => ("·"@, Tone::Faint),
        StatusV::Starting => (spinner, Tone::Warn),
        StatusV::Running => ("●"@, Tone::Good),
        StatusV::Connected => ("●"@, Tone::Linked),
        StatusV::Expired => ("○"@, Tone::Warn),
        StatusV::Error(_) => ("×"@, Tone::Bad),
    }
}

/// Writes `status_mark_of`.
pub fn status_mark(st: &SessionStatus, spinner: &str) -> (r: (String, Tone))
    ensures
        (r.0@, r.1) == status_mark_of(st.view(), spinner@),
{
    match st {
        SessionStatus::Stopped => (str_to_string("·"), Tone::Faint),
        SessionStatus::Starting => (str_to_string(spinner), Tone::Warn),
        SessionStatus::Running => (str_to_string("●"), Tone::Good),
        SessionStatus::Connected => (str_to_string("●"), Tone::Linked),
        SessionStatus::Expired => (str_to_string("○"), Tone::Warn),
        SessionStatus::Error(_) => (str_to_string("×"), Tone::Bad),
    }
}

/// The word for a session status in the detail panel, with its tone: an
/// error shows its message.
pub open spec fn status_label_of(st: StatusV) -> (Seq<char>, Tone) {
    match st {
        StatusV::Stopped => ("stopped"@, Tone::Dim),
        StatusV::Starting => ("starting…"@, Tone::Warn),
        StatusV::Running => ("running"@, Tone::Good),
        StatusV::Connected => ("connected"@, Tone::Linked),
        StatusV::Expired => ("expired"@, Tone::Warn),
        StatusV::Error(e) => (e, Tone::Bad),
    }
}

/// Writes `status_label_of`.
pub fn status_label(st: &SessionStatus) -> (r: (String, Tone))
    ensures
        (r.0@, r.1) == status_label_of(st.view()),
{
    match st {
        SessionStatus::Stopped => (str_to_string("stopped"), Tone::Dim),
        SessionStatus::Starting => (str_to_string("starting…"), Tone::Warn),
        SessionStatus::Running => (str_to_string("running"), Tone::Good),
        SessionStatus::Connected => (str_to_string("connected"), Tone::Linked),
        SessionStatus::Expired => (str_to_string("expired"), Tone::Warn),
        SessionStatus::Error(e) => (e.clone(), Tone::Bad),
    }
}

/// The hint shown where a session has no output yet.
pub open spec fn output_hint_of(st: StatusV) -> Seq<char> {
    match st {
        StatusV::Stopped => " press Enter to start"@,
        StatusV::Starting => " connecting…"@,
        _ => " waiting for output…"@,
    }
}

/// Writes `output_hint_of`.
pub fn output_hint(st: &SessionStatus) -> (r: String)
    ensures
        r@ == output_hint_of(st.view()),
{
    match st {
        SessionStatus::Stopped => str_to_string(" press Enter to start"),
        SessionStatus::Starting => str_to_string(" connecting…"),
        _ => str_to_string(" waiting for output…"),
    }
}

/// The tone of a line of session output: the tool's own lines (`>>>`),
/// error output, lines that mention an error, and the rest.
pub open spec fn line_tone_of(line: Seq<char>) -> Tone {
    if starts_with(line, ">>>"@) {
        Tone::Accent
    } else if contains_seq(line, "[stderr]"@) {
        Tone::Warn
    } else if contains_seq(line, "rror"@) {
        Tone::Bad
    } else {
        Tone::Plain
    }
}

/// Writes `line_tone_of`.
pub fn line_tone(line: &str) -> (r: Tone)
    ensures
        r == line_tone_of(line@),
{
    let v = chars_of(line);
    let p = chars_of(">>>");
    if matches_at(&v, &p, 0) {
        proof {
            reveal_strlit(">>>");
        }
        return Tone::Accent;
    }
    proof {
        reveal_strlit(">>>");
    }
    if str_contains(line, "[stderr]") {
        Tone::Warn
    } else if str_contains(line, "rror") {
        Tone::Bad
    } else {
        Tone::Plain
    }
}

/// The tone of an AWS resource status (ECS, EKS), regardless of case.
pub open spec fn resource_tone_of(status: Seq<char>) -> Tone {
    let u = uppercase(status);
    if u == "ACTIVE"@ || u == "RUNNING"@ || u == "HEALTHY"@ {
        Tone::Good
    } else if u == "DRAINING"@ || u == "PENDING"@ || u == "UPDATING"@ || u == "CREATING"@ {
        Tone::Warn
    } else if u == "INACTIVE"@ || u == "FAILED"@ || u == "DELETE_FAILED"@ || u == "CREATE_FAILED"@ {
        Tone::Bad
    } else {
        Tone::Dim
    }
}

fn eq_str(a: &String, b: &str) -> (r: bool)
    ensures
        r == (a@ == b@),
{
    crate::text::str_eq(a.as_str(), b)
}

/// Writes `resource_tone_of`.
pub fn resource_tone(status: &str) -> (r: Tone)
    ensures
        r == resource_tone_of(status@),
{
    let u = to_upper(status);
    if eq_str(&u, "ACTIVE") || eq_str(&u, "RUNNING") || eq_str(&u, "HEALTHY") {
        Tone::Good
    } else if eq_str(&u, "DRAINING") || eq_str(&u, "PENDING") || eq_str(&u, "UPDATING") || eq_str(
        &u,
        "CREATING",
    ) {
        Tone::Warn
    } else if eq_str(&u, "INACTIVE") || eq_str(&u, "FAILED") || eq_str(&u, "DELETE_FAILED") || eq_str(
        &u,
        "CREATE_FAILED",
    ) {
        Tone::Bad
    } else {
        Tone::Dim
    }
}

// ─── Text ───────────────────────────────────────────────────────────────────
/// `s` cut to `max` characters with an ellipsis where it is longer (and
/// `max` leaves room for more than the ellipsis).
pub open spec fn ellipsized(s: Seq<char>, max: nat) -> Seq<char> {
    if s.len() > max && max > 3 {
        s.take(max - 1) + "…"@
    } else {
        s
    }
}

/// Writes `ellipsized`.
pub fn ellipsize(s: &str, max: usize) -> (r: String)
    ensures
        r@ == ellipsized(s@, max as nat),
{
    let v = chars_of(s);
    if v.len() > max && max > 3 {
        let mut r = string_of(&slice_vec(&v, 0, max - 1));
        push_str(&mut r, "…");
        proof {
            assert(v@.subrange(0, max - 1) =~= v@.take(max - 1));
        }
        r
    } else {
        str_to_string(s)
    }
}

/// The tags of a `tag:K1=V1,K2=V2` target as `K1:V1, K2:V2`; `None` for
/// another target or one without a `key=value` pair.
pub open spec fn tag_target_text(target: Seq<char>) -> Option<Seq<char>> {
    if starts_with(target, "tag:"@) {
        let pairs = tag_pairs(split_at_char(target.skip(4), ','));
        if pairs.len() == 0 {
            None
        } else {
            Some(join(Seq::new(pairs.len(), |i: int| pairs[i].0 + ":"@ + pairs[i].1), ", "@))
        }
    } else {
        None
    }
}

/// Writes `tag_target_text`.
pub fn format_tag_target(target: &str) -> (r: Option<String>)
    ensures
        match r {
            Some(t) => tag_target_text(target@) == Some(t@),
            None => tag_target_text(target@) is None,
        },
{
    let v = chars_of(target);
    let p = chars_of("tag:");
    proof {
        reveal_strlit("tag:");
    }
    if !matches_at(&v, &p, 0) {
        return None;
    }
    let rest = slice_vec(&v, 4, v.len());
    let pieces = split_chars(&rest, ',');
    let pairs = tag_pairs_exec(&pieces);
    proof {
        assert(rest@ =~= v@.skip(4));
        assert(Seq::new(pieces@.len(), |k: int| pieces@[k]@) =~= split_at_char(target@.skip(4), ','));
    }
    if pairs.len() == 0 {
        return None;
    }
    let ghost pv = tag_pairs(split_at_char(target@.skip(4), ','));
    let mut items: Vec<String> = Vec::new();
    let mut i: usize = 0;
    while i < pairs.len()
        invariant
            i <= pairs@.len() == pv.len(),
            forall|k: int| 0 <= k < pairs@.len() ==> (pairs@[k].0@, pairs@[k].1@) == #[trigger] pv[k],
            items@.len() == i,
            forall|k: int| 0 <= k < i ==> (#[trigger] items@[k])@ == pv[k].0 + ":"@ + pv[k].1,
        decreases pairs@.len() - i,
    {
        proof {
            assert((pairs@[i as int].0@, pairs@[i as int].1@) == pv[i as int]);
        }
        let mut t = string_of(&pairs[i].0);
        push_str(&mut t, ":");
        let vstr = string_of(&pairs[i].1);
        push_str(&mut t, vstr.as_str());
        items.push(t);
        i = i + 1;
    }
    let r = join_strings(&items, ", ");
    proof {
        assert(Seq::new(items@.len(), |k: int| items@[k]@) =~= Seq::new(
            pv.len(),
            |k: int| pv[k].0 + ":"@ + pv[k].1,
        ));
    }
    Some(r)
}


// ─── The key hints of the footer ────────────────────────────────────────────
/// The status the footer speaks of: the selected alias's, or stopped.
pub open spec fn footer_status(app: App) -> StatusV {
    if app.aliases@.len() > 0 && app.selected_index < app.session_statuses@.len() {
        app.session_statuses@[app.selected_index as int].view()
    } else {
        StatusV::Stopped
    }
}

/// The key hints of the footer, each a key and what it does: those of the
/// tab shown (and of its focus or typing), then the tab keys and quitting.
pub open spec fn footer_hints_of(app: App) -> Seq<(Seq<char>, Seq<char>)> {
    let tab: Seq<(Seq<char>, Seq<char>)> = match app.active_tab {
        AppTab::Sessions => {
            let st = footer_status(app);
            let act = if active(st) {
                seq![("s"@, " stop  "@)]
            } else if st is Expired {
                seq![("Enter"@, " re-login  "@)]
            } else {
                seq![("Enter"@, " start  "@)]
            };
            let all = if app.running_count > 0 {
                seq![("S"@, " stop all  "@)]
            } else {
                Seq::empty()
            };
            seq![("↑↓"@, " navigate  "@)] + act + all + seq![("Tab"@, " switch  "@), ("/"@, " search  "@)]
        },
        AppTab::Instances => if app.input_mode == InputMode::SsmInput {
            seq![
                ("Enter"@, " send  "@),
                ("S+↑↓"@, " scroll  "@),
                ("Ctrl+D"@, " disconnect  "@),
                ("Esc"@, " back  "@),
            ]
        } else {
            match app.instances_state.focus {
                InstanceFocus::RegionList => seq![("Enter"@, " open region  "@), ("Tab"@, " focus  "@)],
                InstanceFocus::InstanceList => seq![
                    ("↑↓"@, " select  "@),
                    ("Enter"@, " connect  "@),
                    ("r"@, " refresh  "@),
                    ("Tab"@, " focus  "@),
                ],
                InstanceFocus::SsmTerminal => seq![
                    ("i"@, " type  "@),
                    ("[/]"@, " sessions  "@),
                    ("Tab"@, " focus  "@),
                ],
            }
        },
        AppTab::Containers => match app.containers_state.focus {
            ContainersFocus::ClusterList => seq![
                ("↑↓"@, " cluster  "@),
                ("Enter"@, " load detail  "@),
                ("Tab"@, " focus  "@),
                ("r"@, " refresh  "@),
                ("1/2"@, " ECS/EKS  "@),
            ],
            ContainersFocus::DetailList => seq![("↑↓"@, " select  "@), ("Tab"@, " focus  "@), ("r"@, " refresh  "@)],
            _ => Seq::empty(),
        },
        AppTab::Terminal => if app.input_mode == InputMode::TerminalInput {
            seq![
                ("Enter"@, " run  "@),
                ("Tab"@, " accept  "@),
                ("S+↑↓"@, " scroll  "@),
                ("Ctrl+H/L"@, " switch  "@),
                ("Esc"@, " normal  "@),
            ]
        } else {
            seq![("i"@, " input  "@), ("j/k"@, " scroll  "@), ("h/l"@, " switch  "@)]
        },
    };
    tab + seq![("F1-F4"@, " tabs  "@), ("q"@, " quit"@)]
}

/// The values of a list of hints.
pub open spec fn hints_view(v: Seq<(String, String)>) -> Seq<(Seq<char>, Seq<char>)> {
    Seq::new(v.len(), |i: int| (v[i].0@, v[i].1@))
}

fn add_hint(v: &mut Vec<(String, String)>, key: &str, what: &str)
    ensures
        hints_view(final(v)@) == hints_view(old(v)@).push((key@, what@)),
{
    v.push((str_to_string(key), str_to_string(what)));
    proof {
        assert(hints_view(v@) =~= hints_view(old(v)@).push((key@, what@)));
    }
}

/// Writes `footer_hints_of`.
pub fn footer_hints(app: &App) -> (r: Vec<(String, String)>)
    ensures
        hints_view(r@) == footer_hints_of(*app),
{
    let mut v: Vec<(String, String)> = Vec::new();
    proof {
        assert(hints_view(v@) =~= Seq::<(Seq<char>, Seq<char>)>::empty());
    }
    match app.active_tab {
        AppTab::Sessions => {
            let st = if app.aliases.len() > 0 && app.selected_index < app.session_statuses.len() {
                crate::session::clone_status(&app.session_statuses[app.selected_index])
            } else {
                SessionStatus::Stopped
            };
            add_hint(&mut v, "↑↓", " navigate  ");
            match st {
                SessionStatus::Running | SessionStatus::Starting | SessionStatus::Connected => add_hint(
                    &mut v,
                    "s",
                    " stop  ",
                ),
                SessionStatus::Expired => add_hint(&mut v, "Enter", " re-login  "),
                _ => add_hint(&mut v, "Enter", " start  "),
            }
            if app.running_count > 0 {
                add_hint(&mut v, "S", " stop all  ");
            }
            add_hint(&mut v, "Tab", " switch  ");
            add_hint(&mut v, "/", " search  ");
        },
        AppTab::Instances => {
            if app.input_mode == InputMode::SsmInput {
                add_hint(&mut v, "Enter", " send  ");
                add_hint(&mut v, "S+↑↓", " scroll  ");
                add_hint(&mut v, "Ctrl+D", " disconnect  ");
                add_hint(&mut v, "Esc", " back  ");
            } else {
                match app.instances_state.focus {
                    InstanceFocus::RegionList => {
                        add_hint(&mut v, "Enter", " open region  ");
                        add_hint(&mut v, "Tab", " focus  ");
                    },
                    InstanceFocus::InstanceList => {
                        add_hint(&mut v, "↑↓", " select  ");
                        add_hint(&mut v, "Enter", " connect  ");
                        add_hint(&mut v, "r", " refresh  ");
                        add_hint(&mut v, "Tab", " focus  ");
                    },
                    InstanceFocus::SsmTerminal => {
                        add_hint(&mut v, "i", " type  ");
                        add_hint(&mut v, "[/]", " sessions  ");
                        add_hint(&mut v, "Tab", " focus  ");
                    },
                }
            }
        },
        AppTab::Containers => {
            match app.containers_state.focus {
                ContainersFocus::ClusterList => {
                    add_hint(&mut v, "↑↓", " cluster  ");
                    add_hint(&mut v, "Enter", " load detail  ");
                    add_hint(&mut v, "Tab", " focus  ");
                    add_hint(&mut v, "r", " refresh  ");
                    add_hint(&mut v, "1/2", " ECS/EKS  ");
                },
                ContainersFocus::DetailList => {
                    add_hint(&mut v, "↑↓", " select  ");
                    add_hint(&mut v, "Tab", " focus  ");
                    add_hint(&mut v, "r", " refresh  ");
                },
                _ => {},
            }
        },
        AppTab::Terminal => {
            if app.input_mode == InputMode::TerminalInput {
                add_hint(&mut v, "Enter", " run  ");
                add_hint(&mut v, "Tab", " accept  ");
                add_hint(&mut v, "S+↑↓", " scroll  ");
                add_hint(&mut v, "Ctrl+H/L", " switch  ");
                add_hint(&mut v, "Esc", " normal  ");
            } else {
                add_hint(&mut v, "i", " input  ");
                add_hint(&mut v, "j/k", " scroll  ");
                add_hint(&mut v, "h/l", " switch  ");
            }
        },
    }
    add_hint(&mut v, "F1-F4", " tabs  ");
    add_hint(&mut v, "q", " quit");
    v
}

// ─── An error message in the detail panel ───────────────────────────────────
/// The words of `s` from position `i` on: its maximal runs of
/// non-whitespace characters, in order (`str::split_whitespace`).
pub open spec fn words_from(s: Seq<char>, i: int) -> Seq<Seq<char>>
    decreases s.len() - i,
{
    if i < 0 || i >= s.len() {
        Seq::empty()
    } else {
        let a = ws_end(s, i);
        if a >= s.len() {
            Seq::empty()
        } else {
            proof {
                lemma_ws_end(s, i);
                lemma_nonws_end(s, a + 1);
            }
            seq![s.subrange(a, nonws_end(s, a))] + words_from(s, nonws_end(s, a))
        }
    }
}

/// Greedy filling of lines with `words`, at most `width` bytes a line where
/// the words allow: the finished lines and the line being filled. A word
/// that does not fit after the line being filled starts a new line (alone,
/// however long it is).
pub open spec fn fill_lines(words: Seq<Seq<char>>, width: nat) -> (Seq<Seq<char>>, Seq<char>)
    decreases words.len(),
{
    if words.len() == 0 {
        (Seq::empty(), Seq::empty())
    } else {
        let (done, cur) = fill_lines(words.drop_last(), width);
        let w = words.last();
        if cur.len() == 0 {
            (done, w)
        } else if utf8_len(cur) + 1 + utf8_len(w) <= width {
            (done, cur + " "@ + w)
        } else {
            (done.push(cur), w)
        }
    }
}

/// The words of an error message filled into lines of at most `width`
/// bytes where the words allow.
pub open spec fn wrapped_lines(err: Seq<char>, width: nat) -> Seq<Seq<char>> {
    let (done, cur) = fill_lines(words_from(err, 0), width);
    if cur.len() == 0 {
        done
    } else {
        done.push(cur)
    }
}

/// The lines an error message is shown in: its wrapped lines, each after
/// ` × `.
pub open spec fn error_lines_of(err: Seq<char>, width: nat) -> Seq<Seq<char>> {
    let lines = wrapped_lines(err, width);
    Seq::new(lines.len(), |i: int| " × "@ + lines[i])
}

proof fn lemma_fill_push(words: Seq<Seq<char>>, w: Seq<char>, width: nat)
    ensures
        fill_lines(words.push(w), width) == ({
            let (done, cur) = fill_lines(words, width);
            if cur.len() == 0 {
                (done, w)
            } else if utf8_len(cur) + 1 + utf8_len(w) <= width {
                (done, cur + " "@ + w)
            } else {
                (done.push(cur), w)
            }
        }),
{
    assert(words.push(w).drop_last() =~= words);
}

/// The lines an error message is shown in, at most `width` bytes each where
/// its words allow (see `error_lines_of`).
pub fn error_lines(err: &str, width: usize) -> (r: Vec<String>)
    ensures
        lines_view(r@) == error_lines_of(err@, width as nat),
{
    let v = chars_of(err);
    let ghost ws = words_from(v@, 0);
    let ghost mut pre: Seq<Seq<char>> = Seq::empty();
    let mut done: Vec<String> = Vec::new();
    let mut cur: Vec<char> = Vec::new();
    let mut cur_bytes: u128 = 0;
    let mut i: usize = 0;
    assert(pre + words_from(v@, 0) =~= ws);
    loop
        invariant
            i <= v@.len(),
            pre + words_from(v@, i as int) == ws,
            ws == words_from(v@, 0),
            fill_lines(pre, width as nat) == (lines_view(done@), cur@),
            cur_bytes == utf8_len(cur@),
            cur_bytes <= 4 * (usize::MAX as u128),
        ensures
            pre == ws,
        decreases v@.len() - i,
    {
        let a = skip_ws(&v, i);
        if a >= v.len() {
            proof {
                assert(words_from(v@, i as int) =~= Seq::<Seq<char>>::empty());
                assert(pre =~= ws);
            }
            break;
        }
        let b = skip_nonws(&v, a);
        proof {
            lemma_ws_end(v@, i as int);
            lemma_nonws_end(v@, a + 1);
        }
        let w = slice_vec(&v, a, b);
        let wb = bytes_of(&w);
        proof {
            assert(v@.len() <= usize::MAX);
            assert(w@.len() <= v@.len());
            lemma_fill_push(pre, w@, width as nat);
            assert(words_from(v@, i as int) == seq![w@] + words_from(v@, b as int));
            assert(pre.push(w@) + words_from(v@, b as int) =~= pre + words_from(v@, i as int));
        }
        if cur.len() == 0 {
            cur = w;
            cur_bytes = wb;
        } else if cur_bytes + 1 + wb <= width as u128 {
            let ghost old_cur = cur@;
            cur.push(' ');
            let mut wv = w;
            cur.append(&mut wv);
            proof {
                reveal_strlit(" ");
                assert(cur@ =~= old_cur + " "@ + w@);
                lemma_utf8_len_concat(old_cur, " "@);
                lemma_utf8_len_concat(old_cur + " "@, w@);
                assert(utf8_len(" "@) == 1) by {
                    assert(" "@.drop_last() =~= Seq::<char>::empty());
                    assert(utf8_len(Seq::<char>::empty()) == 0);
                }
            }
            cur_bytes = cur_bytes + 1 + wb;
        } else {
            let ghost old_done = lines_view(done@);
            let ghost old_cur = cur@;
            done.push(string_of(&cur));
            proof {
                assert(lines_view(done@) =~= old_done.push(old_cur));
            }
            cur = w;
            cur_bytes = wb;
        }
        proof {
            pre = pre.push(w@);
        }
        i = b;
    }
    let ghost lines = if cur@.len() == 0 {
        lines_view(done@)
    } else {
        lines_view(done@).push(cur@)
    };
    if cur.len() > 0 {
        done.push(string_of(&cur));
        assert(lines_view(done@) =~= lines);
    }
    let mut r: Vec<String> = Vec::new();
    let mut k: usize = 0;
    while k < done.len()
        invariant
            k <= done@.len(),
            lines_view(done@) == lines,
            lines_view(r@) == Seq::new(k as nat, |j: int| " × "@ + lines[j]),
        decreases done@.len() - k,
    {
        let line = concat(" × ", done[k].as_str());
        let ghost old_r = r@;
        r.push(line);
        proof {
            assert(line@ == " × "@ + lines[k as int]);
            assert(r@ == old_r.push(line));
            assert(lines_view(r@) =~= lines_view(old_r).push(line@));
            assert(lines_view(r@) =~= Seq::new((k + 1) as nat, |j: int| " × "@ + lines[j]));
        }
        k = k + 1;
    }
    proof {
        assert(v@ == err@);
        assert(lines_view(r@) =~= error_lines_of(err@, width as nat));
    }
    r
}

// ─── Rows of the ECS tree ───────────────────────────────────────────────────
/// Two spaces for each level of depth.
pub open spec fn indent_of(depth: nat) -> Seq<char>
    decreases depth,
{
    if depth == 0 {
        Seq::empty()
    } else {
        indent_of((depth - 1) as nat) + "  "@
    }
}

/// What stands before the name of an ECS row: its indentation, then `▸ ` for
/// a collapsed row, `▾ ` for an expanded one, `… ` while its children load,
/// and two spaces for a container (which has no children).
pub open spec fn ecs_marker_of(r: EcsTreeItemV) -> Seq<char> {
    indent_of(r.depth as nat) + if r.kind == EcsTreeItemKind::Container {
        "  "@
    } else if r.loading {
        "… "@
    } else if r.expanded {
        "▾ "@
    } else {
        "▸ "@
    }
}

/// The details shown after the name of an ECS row: for a cluster its
/// services and running tasks, and its pending tasks where there are any;
/// for a service its running and desired tasks, then its task definition;
/// for a task its task definition, for a container its image.
pub open spec fn ecs_counts_of(r: EcsTreeItemV) -> Seq<char> {
    match r.kind {
        EcsTreeItemKind::Cluster => "  "@ + r.extra + if r.count_b > 0 {
            "  "@ + signed_decimal(r.count_b as int) + " pend"@
        } else {
            Seq::empty()
        },
        EcsTreeItemKind::Service => "  "@ + signed_decimal(r.count_a as int) + "/"@ + signed_decimal(
            r.count_b as int,
        ) + "  "@ + r.extra,
        _ => "  "@ + r.extra,
    }
}

/// Writes `ecs_marker_of`.
pub fn ecs_marker(it: &EcsTreeItem) -> (r: String)
    ensures
        r@ == ecs_marker_of(it.view()),
{
    let mut r = String::new();
    let mut d: u8 = 0;
    while d < it.depth
        invariant
            d <= it.depth,
            r@ == indent_of(d as nat),
        decreases it.depth - d,
    {
        push_str(&mut r, "  ");
        d = d + 1;
    }
    let tail = match it.kind {
        EcsTreeItemKind::Container => "  ",
        _ => if it.loading {
            "… "
        } else if it.expanded {
            "▾ "
        } else {
            "▸ "
        },
    };
    push_str(&mut r, tail);
    r
}

/// Writes `ecs_counts_of`.
pub fn ecs_counts(it: &EcsTreeItem) -> (r: String)
    ensures
        r@ == ecs_counts_of(it.view()),
{
    match it.kind {
        EcsTreeItemKind::Cluster => {
            let mut r = concat("  ", it.extra.as_str());
            if it.count_b > 0 {
                push_str(&mut r, "  ");
                push_str(&mut r, i64_to_dec(it.count_b).as_str());
                push_str(&mut r, " pend");
            }
            proof {
                if it.count_b <= 0 {
                    assert(r@ =~= "  "@ + it.extra@ + Seq::<char>::empty());
                }
            }
            r
        },
        EcsTreeItemKind::Service => {
            let mut r = concat("  ", i64_to_dec(it.count_a).as_str());
            push_str(&mut r, "/");
            push_str(&mut r, i64_to_dec(it.count_b).as_str());
            push_str(&mut r, "  ");
            push_str(&mut r, it.extra.as_str());
            r
        },
        _ => concat("  ", it.extra.as_str()),
    }
}

// ─── The Instances tab ──────────────────────────────────────────────────────
/// What the instance list shows.
pub enum InstanceListView {
    Loading,
    NoInstances,
    NoMatches,
    /// The instances at these positions, in order.
    Rows(Vec<usize>),
}

/// The positions of the instances the list shows: the search matches, none
/// where a search matched nothing, else all.
pub open spec fn visible_instances(s: InstancesState) -> Seq<usize> {
    if s.filtered_instances@.len() > 0 {
        s.filtered_instances@
    } else if s.search_query@.len() > 0 {
        Seq::empty()
    } else {
        Seq::new(s.instances@.len(), |i: int| i as usize)
    }
}

/// Writes what the instance list shows: loading, no instances, no matches,
/// or the visible instances.
pub fn instance_list_view(s: &InstancesState) -> (r: InstanceListView)
    ensures
        s.loading_instances ==> r is Loading,
        !s.loading_instances && s.instances@.len() == 0 ==> r is NoInstances,
        !s.loading_instances && s.instances@.len() > 0 ==> if visible_instances(*s).len() == 0
            && s.search_query@.len() > 0 {
            r is NoMatches
        } else {
            r matches InstanceListView::Rows(v) && v@ == visible_instances(*s)
        },
{
    if s.loading_instances {
        return InstanceListView::Loading;
    }
    if s.instances.len() == 0 {
        return InstanceListView::NoInstances;
    }
    let has_query = s.search_query.as_str().unicode_len() > 0;
    let visible: Vec<usize> = if s.filtered_instances.len() > 0 {
        s.filtered_instances.clone()
    } else if has_query {
        Vec::new()
    } else {
        let mut all: Vec<usize> = Vec::new();
        let mut i: usize = 0;
        while i < s.instances.len()
            invariant
                i <= s.instances@.len(),
                all@ == Seq::new(i as nat, |k: int| k as usize),
            decreases s.instances@.len() - i,
        {
            all.push(i);
            i = i + 1;
            proof {
                assert(all@ =~= Seq::new(i as nat, |k: int| k as usize));
            }
        }
        all
    };
    proof {
        assert(visible@ =~= visible_instances(*s));
    }
    if visible.len() == 0 && has_query {
        InstanceListView::NoMatches
    } else {
        InstanceListView::Rows(visible)
    }
}

/// The status line under the SSM terminals, by how many sessions are open.
pub open spec fn ssm_status_line_of(sessions: nat) -> Seq<char> {
    if sessions > 1 {
        "  F4/F5: switch session  [/]: nav  Ctrl+D: close  Tab: focus"@
    } else if sessions == 1 {
        "  Ctrl+D: close  Tab: focus  Enter: new session"@
    } else {
        "  Enter: connect  Tab: focus"@
    }
}

/// Writes `ssm_status_line_of`.
pub fn ssm_status_line(sessions: usize) -> (r: String)
    ensures
        r@ == ssm_status_line_of(sessions as nat),
{
    if sessions > 1 {
        str_to_string("  F4/F5: switch session  [/]: nav  Ctrl+D: close  Tab: focus")
    } else if sessions == 1 {
        str_to_string("  Ctrl+D: close  Tab: focus  Enter: new session")
    } else {
        str_to_string("  Enter: connect  Tab: focus")
    }
}

/// The label of an SSM session's tab: its instance name, cut to 14
/// characters, between spaces.
pub open spec fn session_tab_label_of(name: Seq<char>) -> Seq<char> {
    " "@ + (if name.len() > 14 {
        name.take(14)
    } else {
        name
    }) + " "@
}

/// Writes `session_tab_label_of`.
pub fn session_tab_label(name: &str) -> (r: String)
    ensures
        r@ == session_tab_label_of(name@),
{
    let v = chars_of(name);
    let n = if v.len() > 14 {
        14
    } else {
        v.len()
    };
    let cut = string_of(&slice_vec(&v, 0, n));
    proof {
        if v@.len() > 14 {
            assert(v@.subrange(0, 14) =~= v@.take(14));
        } else {
            assert(v@.subrange(0, v@.len() as int) =~= v@);
        }
    }
    let mut r = concat(" ", cut.as_str());
    push_str(&mut r, " ");
    r
}


// ─── The alias list of the Sessions tab ─────────────────────────────────────
/// The kind of aliases a sub-heading of the alias list stands for.
#[derive(Debug, Clone, Copy, PartialEq, Eq, Structural)]
pub enum KindHeading {
    Sso,
    Ssm,
    Other,
}

/// The sub-heading of an alias's kind.
pub open spec fn heading_of(k: AliasKindV) -> KindHeading {
    match k {
        AliasKindV::SsoLogin { .. } => KindHeading::Sso,
        AliasKindV::SsmSession { .. } => KindHeading::Ssm,
        AliasKindV::Other => KindHeading::Other,
    }
}

/// One alias's row of the list.
pub struct AliasRow {
    /// The alias's position.
    pub index: usize,
    /// Whether it is the last of its group in the list (`└`, else `├`).
    pub last: bool,
    pub mark: String,
    pub mark_tone: Tone,
    pub selected: bool,
    pub name_tone: Tone,
    /// The local port of an SSM port forward.
    pub port: Option<String>,
    /// The tags of an SSM target given by tags (see `tag_target_text`).
    pub tags: Option<String>,
    /// How long a running session has run.
    pub uptime: Option<String>,
    /// `connected` or `expired`.
    pub note: Option<String>,
    /// Whether it falls on an odd line of the list (drawn on the other
    /// background).
    pub striped: bool,
}

/// A row of the alias list.
pub enum ListRow {
    Blank,
    Group(String),
    Kind(KindHeading),
    Alias(AliasRow),
}

/// The value of an `AliasRow`.
pub struct AliasRowV {
    pub index: usize,
    pub last: bool,
    pub mark: Seq<char>,
    pub mark_tone: Tone,
    pub selected: bool,
    pub name_tone: Tone,
    pub port: Option<Seq<char>>,
    pub tags: Option<Seq<char>>,
    pub uptime: Option<Seq<char>>,
    pub note: Option<Seq<char>>,
    pub striped: bool,
}

/// The value of a `ListRow`.
pub enum ListRowV {
    Blank,
    Group(Seq<char>),
    Kind(KindHeading),
    Alias(AliasRowV),
}

pub open spec fn opt_str(o: Option<String>) -> Option<Seq<char>> {
    match o {
        Some(s) => Some(s@),
        None => None,
    }
}

impl AliasRow {
    pub open spec fn view(&self) -> AliasRowV {
        AliasRowV {
            index: self.index,
            last: self.last,
            mark: self.mark@,
            mark_tone: self.mark_tone,
            selected: self.selected,
            name_tone: self.name_tone,
            port: opt_str(self.port),
            tags: opt_str(self.tags),
            uptime: opt_str(self.uptime),
            note: opt_str(self.note),
            striped: self.striped,
        }
    }
}

impl ListRow {
    pub open spec fn view(&self) -> ListRowV {
        match self {
            ListRow::Blank => ListRowV::Blank,
            ListRow::Group(g) => ListRowV::Group(g@),
            ListRow::Kind(k) => ListRowV::Kind(*k),
            ListRow::Alias(a) => ListRowV::Alias(a.view()),
        }
    }
}

/// The values of a list of rows.
pub open spec fn rows_view(v: Seq<ListRow>) -> Seq<ListRowV> {
    Seq::new(v.len(), |i: int| v[i].view())
}

/// The positions of the aliases the list shows: all, or the matches of a
/// search.
pub open spec fn listed(app: App) -> Seq<usize> {
    if app.search_query@.len() == 0 {
        Seq::new(app.aliases@.len(), |i: int| i as usize)
    } else {
        app.filtered_indices@
    }
}

/// The group of the alias at position `i`.
pub open spec fn group_at(app: App, i: usize) -> Seq<char> {
    app.aliases@[i as int].group@
}

/// The position in `idx`, at or after `k`, of the last alias of group `g`,
/// if any.
pub open spec fn last_of_group(app: App, idx: Seq<usize>, g: Seq<char>, k: int) -> Option<int>
    decreases idx.len() - k,
{
    if k < 0 || k >= idx.len() {
        None
    } else {
        match last_of_group(app, idx, g, k + 1) {
            Some(p) => Some(p),
            None => if group_at(app, idx[k]) == g {
                Some(k)
            } else {
                None
            },
        }
    }
}

/// The row of the alias at position `i`, the last of its group or not,
/// striped or not, at time `now`: its status mark, its name's tone (bright
/// when selected, green when running or connected), an SSM forward's local
/// port and tags, a running session's uptime, and a note for a connected or
/// expired session.
pub open spec fn alias_row_of(app: App, i: usize, last: bool, striped: bool, now: u64) -> AliasRowV {
    let a = app.aliases@[i as int].view();
    let st = app.session_statuses@[i as int].view();
    let selected = app.selected_index == i;
    AliasRowV {
        index: i,
        last,
        mark: status_mark_of(st, spinner_frames()[app.spinner_frame as int]).0,
        mark_tone: status_mark_of(st, spinner_frames()[app.spinner_frame as int]).1,
        selected,
        name_tone: if selected {
            Tone::Bright
        } else if st is Running || st is Connected {
            Tone::Good
        } else {
            Tone::Plain
        },
        port: match a.kind {
            AliasKindV::SsmSession { local_port: Some(p), .. } => Some(":"@ + p),
            _ => None,
        },
        tags: match a.kind {
            AliasKindV::SsmSession { target, .. } => tag_target_text(target),
            _ => None,
        },
        uptime: if st is Running {
            match assoc_get(app.session_start_times@, a.name) {
                Some(start) => Some(uptime_text(elapsed_secs(start, now))),
                None => None,
            }
        } else {
            None
        },
        note: if st is Connected {
            Some("connected"@)
        } else if st is Expired {
            Some("expired"@)
        } else {
            None
        },
        striped,
    }
}

/// The rows for the first `n` listed aliases, with the last group and group
/// key headed so far: a group's first alias opens it with a blank line (but
/// for the first group) and its heading, and a sub-heading by the alias's
/// kind; each alias row knows whether it is its group's last.
pub open spec fn rows_upto(app: App, now: u64, n: int) -> (Seq<ListRowV>, Seq<char>, Seq<char>)
    decreases n,
{
    if n <= 0 {
        (Seq::empty(), Seq::empty(), Seq::empty())
    } else {
        let (rows, prev_group, prev_key) = rows_upto(app, now, n - 1);
        let idx = listed(app);
        let i = idx[n - 1];
        let g = group_at(app, i);
        let key = g + ":"@;
        let (rows2, group2, key2) = if key != prev_key {
            let (r1, g1) = if g != prev_group {
                let r0 = if rows.len() > 0 {
                    rows.push(ListRowV::Blank)
                } else {
                    rows
                };
                (r0.push(ListRowV::Group(g)), g)
            } else {
                (rows, prev_group)
            };
            (r1.push(ListRowV::Kind(heading_of(app.aliases@[i as int].kind.view()))), g1, key)
        } else {
            (rows, prev_group, prev_key)
        };
        let last = match last_of_group(app, idx, g, 0) {
            Some(p) => idx[p] == i,
            None => false,
        };
        (rows2.push(ListRowV::Alias(alias_row_of(app, i, last, rows2.len() % 2 == 1, now))), group2, key2)
    }
}

fn kind_heading(k: &AliasKind) -> (r: KindHeading)
    ensures
        r == heading_of(k.view()),
{
    match k {
        AliasKind::SsoLogin { .. } => KindHeading::Sso,
        AliasKind::SsmSession { .. } => KindHeading::Ssm,
        AliasKind::Other => KindHeading::Other,
    }
}

fn alias_row(app: &App, i: usize, last: bool, striped: bool, now: u64) -> (r: AliasRow)
    requires
        app.wf(),
        i < app.aliases@.len(),
    ensures
        r.view() == alias_row_of(*app, i, last, striped, now),
{
    let a = &app.aliases[i];
    let st = &app.session_statuses[i];
    let (mark, mark_tone) = status_mark(st, app.spinner());
    let selected = app.selected_index == i;
    let running = match st {
        SessionStatus::Running => true,
        _ => false,
    };
    let name_tone = if selected {
        Tone::Bright
    } else {
        match st {
            SessionStatus::Running | SessionStatus::Connected => Tone::Good,
            _ => Tone::Plain,
        }
    };
    let (port, tags) = match &a.kind {
        AliasKind::SsmSession { target, local_port, .. } => {
            let port = match local_port {
                Some(p) => Some(concat(":", p.as_str())),
                None => None,
            };
            (port, format_tag_target(target.as_str()))
        },
        _ => (None, None),
    };
    let uptime = if running {
        app.session_uptime(a.name.as_str(), now)
    } else {
        None
    };
    let note = match st {
        SessionStatus::Connected => Some(str_to_string("connected")),
        SessionStatus::Expired => Some(str_to_string("expired")),
        _ => None,
    };
    AliasRow { index: i, last, mark, mark_tone, selected, name_tone, port, tags, uptime, note, striped }
}

fn listed_exec(app: &App) -> (r: Vec<usize>)
    requires
        app.wf(),
    ensures
        r@ == listed(*app),
        forall|k: int| 0 <= k < r@.len() ==> #[trigger] r@[k] < app.aliases@.len(),
{
    if app.search_query.as_str().unicode_len() == 0 {
        let mut all: Vec<usize> = Vec::new();
        let mut i: usize = 0;
        while i < app.aliases.len()
            invariant
                i <= app.aliases@.len(),
                all@ == Seq::new(i as nat, |k: int| k as usize),
            decreases app.aliases@.len() - i,
        {
            all.push(i);
            i = i + 1;
            proof {
                assert(all@ =~= Seq::new(i as nat, |k: int| k as usize));
            }
        }
        all
    } else {
        app.filtered_indices.clone()
    }
}

fn last_of_group_exec(app: &App, idx: &Vec<usize>, g: &String) -> (r: Option<usize>)
    requires
        app.wf(),
        forall|k: int| 0 <= k < idx@.len() ==> #[trigger] idx@[k] < app.aliases@.len(),
    ensures
        match r {
            Some(p) => last_of_group(*app, idx@, g@, 0) == Some(p as int) && p < idx@.len(),
            None => last_of_group(*app, idx@, g@, 0) is None,
        },
{
    let mut k: usize = idx.len();
    while k > 0
        invariant
            k <= idx@.len(),
            forall|j: int| 0 <= j < idx@.len() ==> #[trigger] idx@[j] < app.aliases@.len(),
            last_of_group(*app, idx@, g@, k as int) is None,
        decreases k,
    {
        k = k - 1;
        if crate::text::str_eq(app.aliases[idx[k]].group.as_str(), g.as_str()) {
            proof {
                lemma_last_of_group_here(*app, idx@, g@, 0, k as int);
            }
            return Some(k);
        }
    }
    None
}

proof fn lemma_last_of_group_here(app: App, idx: Seq<usize>, g: Seq<char>, j: int, k: int)
    requires
        0 <= j <= k < idx.len(),
        group_at(app, idx[k]) == g,
        last_of_group(app, idx, g, k + 1) is None,
    ensures
        last_of_group(app, idx, g, j) == Some(k),
    decreases k - j,
{
    if j < k {
        lemma_last_of_group_here(app, idx, g, j + 1, k);
    }
}

/// The rows of the alias list at time `now` (see `rows_upto`), or `None`
/// where a search matched nothing.
pub fn session_rows(app: &App, now: u64) -> (r: Option<Vec<ListRow>>)
    requires
        app.wf(),
    ensures
        match r {
            None => app.search_query@.len() > 0 && app.filtered_indices@.len() == 0,
            Some(v) => !(app.search_query@.len() > 0 && app.filtered_indices@.len() == 0) && rows_view(v@)
                == rows_upto(*app, now, listed(*app).len() as int).0,
        },
{
    if app.search_query.as_str().unicode_len() > 0 && app.filtered_indices.len() == 0 {
        return None;
    }
    let idx = listed_exec(app);
    let mut rows: Vec<ListRow> = Vec::new();
    let mut prev_group = String::new();
    let mut prev_key = String::new();
    let mut n: usize = 0;
    proof {
        assert(rows_view(rows@) =~= Seq::<ListRowV>::empty());
    }
    while n < idx.len()
        invariant
            app.wf(),
            n <= idx@.len(),
            idx@ == listed(*app),
            forall|k: int| 0 <= k < idx@.len() ==> #[trigger] idx@[k] < app.aliases@.len(),
            (rows_view(rows@), prev_group@, prev_key@) == rows_upto(*app, now, n as int),
        decreases idx@.len() - n,
    {
        let i = idx[n];
        let g = app.aliases[i].group.clone();
        let mut key = g.clone();
        push_str(&mut key, ":");
        let ghost before = rows_view(rows@);
        if !crate::text::str_eq(key.as_str(), prev_key.as_str()) {
            if !crate::text::str_eq(g.as_str(), prev_group.as_str()) {
                if rows.len() > 0 {
                    rows.push(ListRow::Blank);
                }
                rows.push(ListRow::Group(g.clone()));
                prev_group = g.clone();
            }
            rows.push(ListRow::Kind(kind_heading(&app.aliases[i].kind)));
            prev_key = key;
        }
        let last = match last_of_group_exec(app, &idx, &g) {
            Some(p) => idx[p] == i,
            None => false,
        };
        let striped = rows.len() % 2 == 1;
        let row = alias_row(app, i, last, striped, now);
        rows.push(ListRow::Alias(row));
        proof {
            let ghost r_prev = rows_upto(*app, now, n as int);
            assert(rows_view(rows@).drop_last() =~= rows_view(rows@.drop_last()));
            assert(rows_view(rows@) =~= rows_upto(*app, now, n + 1).0);
        }
        n = n + 1;
    }
    Some(rows)
}


/// The rows and columns of the SSM terminal panel on a screen of `width` ×
/// `height`: the right part of the framed body (64% of it, less a divider),
/// under a row of session tabs where sessions are open; at least 4 rows and
/// 20 columns.
pub open spec fn ssm_panel_size_of(width: u16, height: u16, has_sessions: bool) -> (u16, u16) {
    let inner: int = if width >= 2 {
        width - 2
    } else {
        0
    };
    let left: int = inner * 36 / 100;
    let cols: int = if inner >= left + 1 {
        inner - (left + 1)
    } else {
        0
    };
    let top: int = if has_sessions {
        10
    } else {
        9
    };
    let rows: int = if height >= top {
        height - top
    } else {
        0
    };
    ((if rows > 4 {
        rows
    } else {
        4
    }) as u16, (if cols > 20 {
        cols
    } else {
        20
    }) as u16)
}

/// Writes `ssm_panel_size_of`.
pub fn ssm_panel_size(width: u16, height: u16, has_sessions: bool) -> (r: (u16, u16))
    ensures
        r == ssm_panel_size_of(width, height, has_sessions),
{
    let inner: u32 = if width >= 2 {
        (width - 2) as u32
    } else {
        0
    };
    let left: u32 = inner * 36 / 100;
    assert(left <= inner) by (nonlinear_arith)
        requires
            left == inner * 36 / 100,
            inner <= 65535,
    ;
    let cols: u32 = if inner >= left + 1 {
        inner - (left + 1)
    } else {
        0
    };
    let top: u16 = if has_sessions {
        10
    } else {
        9
    };
    let rows: u16 = if height >= top {
        height - top
    } else {
        0
    };
    let r: u16 = if rows > 4 {
        rows
    } else {
        4
    };
    let c: u16 = if cols > 20 {
        cols as u16
    } else {
        20
    };
    (r, c)
}

} // verus!
