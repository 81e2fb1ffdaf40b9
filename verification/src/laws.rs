//! Laws of the application that span its operations: what one step undoes
//! of another, what every step keeps, and how the two AWS files combine.
use vstd::prelude::*;
use crate::app::{App, moved_next, moved_previous};
use crate::instances::{
    InstancesState, region_next, region_prev, session_next, session_prev, profile_next, profile_prev,
};
use crate::containers::{
    ContainersState, ContainersSubTab, cluster_next, cluster_prev, EcsTreeItemV, collapse_tree, subtree_end,
    lemma_subtree_end_from, EcsTreeItemKind, ContainersStateV, FetchResult, FetchRequest, apply_result,
    apply_results, cluster_rows, service_rows, tasks_rows, task_rows, expand_with, with_children,
    set_open, set_loading, find_row_from, toggle_tree, tree_view, ecs_toggled, ecs_collapsed, EcsTaskData,
};
use crate::app::{alias_positions, alias_matches, InputMode, AppTab, ConfirmAction};
use crate::parser::AliasV;
use crate::events::{KeyEvent, KeyCode, KeyAction, key_handled};
use crate::terminal::{
    Completer, TerminalState, suggestion_count, completer_next, completer_prev, char_inserted, backspaced,
    history_went_up, history_went_down, history_after, MAX_HISTORY,
};
use crate::gui::aws_config::{ProfileV, config_map, credentials_map, merged_profiles};
use crate::session::{capped_push, MAX_OUTPUT_LINES, SessionManager, stopped_view, must_kill, StatusV};
use crate::session::{iso8601_to_unix, strip_utc, sview, liveness_outcome, others_unchanged, session_of};
use crate::gui::aws::StsV;
use crate::instances::InstancesRequest;
use crate::parser::flag_arg;
use crate::gui::aws_config::{ConfigScan, SectionV, config_step};
use crate::text::lines_of;
use crate::text::{is_ws, trim, trim_start, trim_end, ends_with};
use crate::terminal::{nexts, query_due, keystroke_noted};
use crate::gui::commands::batch_of;
use crate::screen::{fill_lines, wrapped_lines, words_from};
use crate::text::{utf8_len, lemma_utf8_len_concat, byte_pos};

verus! {

/// One step forward in a ring of `len` places, then one back, returns to
/// the start.
proof fn lemma_ring(i: int, len: int)
    requires
        0 <= i < len,
    ensures
        ({
            let j = (i + 1) % len;
            0 <= j < len && (if j == 0 {
                len - 1
            } else {
                j - 1
            }) == i
        }),
        ({
            let j = if i == 0 {
                len - 1
            } else {
                i - 1
            };
            0 <= j < len && (j + 1) % len == i
        }),
{
    if i + 1 < len {
        vstd::arithmetic::div_mod::lemma_small_mod((i + 1) as nat, len as nat);
    } else {
        vstd::arithmetic::div_mod::lemma_mod_self_0(len);
    }
    if i == 0 {
        vstd::arithmetic::div_mod::lemma_mod_self_0(len);
    } else {
        vstd::arithmetic::div_mod::lemma_small_mod(i as nat, len as nat);
    }
}

/// Moving to the previous alias undoes moving to the next one, where no
/// search narrows the list.
pub proof fn law_previous_undoes_next(o: App, a: App, b: App)
    requires
        o.wf(),
        o.aliases@.len() > 0,
        !o.searching(),
        moved_next(o, a),
        moved_previous(a, b),
    ensures
        b == o,
{
    assert(o.aliases.len() == o.aliases@.len());
    lemma_ring(o.selected_index as int, o.aliases@.len() as int);
}

/// Moving to the next alias undoes moving to the previous one, where no
/// search narrows the list.
pub proof fn law_next_undoes_previous(o: App, a: App, b: App)
    requires
        o.wf(),
        o.aliases@.len() > 0,
        !o.searching(),
        moved_previous(o, a),
        moved_next(a, b),
    ensures
        b == o,
{
    assert(o.aliases.len() == o.aliases@.len());
    lemma_ring(o.selected_index as int, o.aliases@.len() as int);
}

/// The previous region undoes the next one.
pub proof fn law_region_back_and_forth(o: InstancesState, a: InstancesState, b: InstancesState)
    requires
        o.wf(),
        region_next(o, a),
        region_prev(a, b),
    ensures
        b == o,
{
    lemma_ring(o.region_idx as int, o.regions@.len() as int);
    assert(o.regions.len() == o.regions@.len());
}

/// The previous SSM session undoes the next one.
pub proof fn law_session_back_and_forth(o: InstancesState, a: InstancesState, b: InstancesState)
    requires
        o.wf(),
        session_next(o, a),
        session_prev(a, b),
    ensures
        b == o,
{
    if o.ssm_sessions@.len() > 1 {
        assert(o.ssm_sessions.len() == o.ssm_sessions@.len());
        lemma_ring(o.active_session_idx as int, o.ssm_sessions@.len() as int);
    }
}

/// The previous profile undoes the next one, where the selected profile
/// exists.
pub proof fn law_profile_back_and_forth(o: InstancesState, a: InstancesState, b: InstancesState)
    requires
        o.active_profile_idx < o.profiles@.len(),
        profile_next(o, a),
        profile_prev(a, b),
    ensures
        b == o,
{
    assert(o.profiles.len() == o.profiles@.len());
    lemma_ring(o.active_profile_idx as int, o.profiles@.len() as int);
}

/// The previous cluster undoes the next one, where the selected cluster
/// exists.
pub proof fn law_cluster_back_and_forth(o: ContainersState, a: ContainersState, b: ContainersState)
    requires
        o.sub_tab == ContainersSubTab::Ecs ==> o.selected_ecs_tree < o.ecs_tree@.len(),
        o.sub_tab == ContainersSubTab::Eks ==> o.selected_eks_cluster < o.eks_clusters@.len(),
        cluster_next(o, a),
        cluster_prev(a, b),
    ensures
        b == o,
{
    if o.sub_tab == ContainersSubTab::Ecs {
        assert(o.ecs_tree.len() == o.ecs_tree@.len());
        lemma_ring(o.selected_ecs_tree as int, o.ecs_tree@.len() as int);
    } else {
        assert(o.eks_clusters.len() == o.eks_clusters@.len());
        lemma_ring(o.selected_eks_cluster as int, o.eks_clusters@.len() as int);
    }
}

/// The previous suggestion undoes the next one, where the selected
/// suggestion exists.
pub proof fn law_suggestion_back_and_forth(o: Completer, a: Completer, b: Completer)
    requires
        suggestion_count(o) matches Some(k) && o.selected_index < k,
        completer_next(o, a),
        completer_prev(a, b),
    ensures
        b == o,
{
    let res = o.cached_result->0;
    assert(res.suggestions.len() == res.suggestions@.len());
    lemma_ring(o.selected_index as int, suggestion_count(o)->0 as int);
}


/// Backspace undoes typing a character: the command line and the cursor
/// are as before.
pub proof fn law_backspace_undoes_typing(
    o: TerminalState,
    a: TerminalState,
    b: TerminalState,
    c: char,
    t1: u64,
    t2: u64,
)
    requires
        o.wf(),
        char_inserted(o, a, c, t1),
        backspaced(a, b, t2),
    ensures
        b.input@ == o.input@,
        b.cursor_pos == o.cursor_pos,
{
    let k = o.cursor_char();
    crate::text::lemma_on_boundary(o.input@, o.cursor_pos as int);
    crate::terminal::lemma_splice(o.input@, k, seq![c], k);
    crate::text::lemma_utf8_single(c);
    crate::text::lemma_char_pos_of(a.input@, k + 1);
    assert(a.cursor_char() == k + 1);
    assert(a.input@.take(k) =~= o.input@.take(k));
    assert(a.input@.skip(k + 1) =~= o.input@.skip(k));
    assert(b.input@ =~= o.input@);
    assert(byte_pos(a.input@, k) == byte_pos(o.input@, k));
}

/// Walking down the history right after walking up into it from the line
/// being typed gives that line back.
pub proof fn law_history_down_undoes_up(o: TerminalState, a: TerminalState, b: TerminalState)
    requires
        o.wf(),
        o.history_index is None,
        history_went_up(o, a),
        history_went_down(a, b),
    ensures
        b.input@ == o.input@,
        b.history_index is None,
{
    assert(o.history.len() == o.history@.len());
}

/// A session's output never holds more than `MAX_OUTPUT_LINES` lines, and
/// the line added last is its last line; below the limit nothing is lost.
pub proof fn law_output_capped(lines: Seq<Seq<char>>, line: Seq<char>)
    requires
        lines.len() <= MAX_OUTPUT_LINES,
    ensures
        capped_push(lines, line).len() <= MAX_OUTPUT_LINES,
        capped_push(lines, line).last() == line,
        lines.len() < MAX_OUTPUT_LINES ==> capped_push(lines, line) == lines.push(line),
{
}

/// The command history keeps at most `MAX_HISTORY` commands and ends with
/// the command run last; running the same command again changes nothing.
pub proof fn law_history_bounded(h: Seq<Seq<char>>, cmd: Seq<char>)
    requires
        h.len() <= MAX_HISTORY,
    ensures
        history_after(h, cmd).len() <= MAX_HISTORY,
        history_after(h, cmd).last() == cmd,
        history_after(history_after(h, cmd), cmd) == history_after(h, cmd),
{
    let h1 = if h.len() > 0 && h.last() == cmd {
        h
    } else {
        h.push(cmd)
    };
    assert(h1.last() == cmd);
    if h1.len() > MAX_HISTORY {
        assert(h1.skip(h1.len() - MAX_HISTORY).last() == cmd);
    }
}

/// After stopping all sessions, each session is stopped or is to have its
/// process killed.
pub proof fn law_stop_all_leaves_none_running(m: SessionManager, name: Seq<char>)
    ensures
        stopped_view(m, name) matches Some(s) ==> (s.status is Stopped || must_kill(m, name)),
{
}


proof fn lemma_credentials_keep(m: Map<Seq<char>, ProfileV>, creds: Seq<ProfileV>, n: int, k: Seq<char>)
    requires
        m.contains_key(k),
    ensures
        credentials_map(m, creds, n).contains_key(k),
        credentials_map(m, creds, n)[k] == m[k],
    decreases n,
{
    if n > 0 {
        lemma_credentials_keep(m, creds, n - 1, k);
    }
}

proof fn lemma_credentials_fill(m: Map<Seq<char>, ProfileV>, creds: Seq<ProfileV>, n: int, i: int)
    requires
        0 <= i < n <= creds.len(),
    ensures
        credentials_map(m, creds, n).contains_key(creds[i].name),
    decreases n,
{
    if i < n - 1 {
        lemma_credentials_fill(m, creds, n - 1, i);
    }
}

/// The config file wins: a profile it names is merged exactly as the config
/// file has it, whatever the credentials file holds.
pub proof fn law_config_wins(cfg: Seq<ProfileV>, creds: Seq<ProfileV>, k: Seq<char>)
    requires
        config_map(cfg, cfg.len() as int).contains_key(k),
    ensures
        merged_profiles(cfg, creds).contains_key(k),
        merged_profiles(cfg, creds)[k] == config_map(cfg, cfg.len() as int)[k],
{
    lemma_credentials_keep(config_map(cfg, cfg.len() as int), creds, creds.len() as int, k);
}

/// The credentials file fills in: every profile it names is among the
/// merged profiles.
pub proof fn law_credentials_fill_in(cfg: Seq<ProfileV>, creds: Seq<ProfileV>, i: int)
    requires
        0 <= i < creds.len(),
    ensures
        merged_profiles(cfg, creds).contains_key(creds[i].name),
{
    lemma_credentials_fill(config_map(cfg, cfg.len() as int), creds, creds.len() as int, i);
}


/// Collapsing a row of the ECS tree removes exactly its descendants: the
/// rows before it stay, it is shown collapsed, and the rows from the first
/// one not deeper than it follow it (so no row deeper than it is left
/// right after it).
#[verifier::spinoff_prover]
pub proof fn law_collapse_removes_subtree(t: Seq<EcsTreeItemV>, i: int)
    requires
        0 <= i < t.len(),
    ensures
        ({
            let c = collapse_tree(t, i);
            &&& c.take(i) == t.take(i)
            &&& c[i] == (EcsTreeItemV { expanded: false, ..t[i] })
            &&& c.skip(i + 1) == t.skip(subtree_end(t, i))
            &&& i + 1 < c.len() ==> c[i + 1].depth <= t[i].depth
        }),
{
    lemma_subtree_end_from(t, t[i].depth, i + 1);
    let c = collapse_tree(t, i);
    let e = subtree_end(t, i);
    assert(c.take(i) =~= t.take(i));
    assert(c.skip(i + 1) =~= t.skip(e));
    if i + 1 < c.len() {
        assert(c[i + 1] == t[e]);
    }
}

/// The positions a search keeps are exactly those of the aliases, among
/// the first `n`, that match the query, in list order.
pub proof fn law_search_keeps_matches(v: Seq<AliasV>, q: Seq<char>, n: int)
    requires
        0 <= n <= v.len(),
        v.len() <= usize::MAX,
    ensures
        forall|k: int|
            0 <= k < alias_positions(v, q, n).len() ==> (#[trigger] alias_positions(v, q, n)[k]) < n
                && alias_matches(v[alias_positions(v, q, n)[k] as int], q),
        forall|j: int| 0 <= j < n && alias_matches(#[trigger] v[j], q) ==> alias_positions(v, q, n).contains(
            j as usize,
        ),
        forall|a: int, b: int|
            0 <= a < b < alias_positions(v, q, n).len() ==> (#[trigger] alias_positions(v, q, n)[a]) < (
            #[trigger] alias_positions(v, q, n)[b]),
    decreases n,
{
    if n > 0 {
        law_search_keeps_matches(v, q, n - 1);
        let rest = alias_positions(v, q, n - 1);
        if alias_matches(v[n - 1], q) {
            let p = rest.push((n - 1) as usize);
            assert(alias_positions(v, q, n) == p);
            assert forall|k: int| 0 <= k < rest.len() implies #[trigger] p[k] == rest[k] by {}
            assert(p[rest.len() as int] == (n - 1) as usize);
            assert forall|j: int| 0 <= j < n && alias_matches(#[trigger] v[j], q) implies p.contains(
                j as usize,
            ) by {
                if j < n - 1 {
                    let w = choose|w: int| 0 <= w < rest.len() && rest[w] == j as usize;
                    assert(p[w] == j as usize);
                } else {
                    assert(p[rest.len() as int] == j as usize);
                }
            }
        } else {
            assert forall|j: int| 0 <= j < n && alias_matches(#[trigger] v[j], q) implies rest.contains(
                j as usize,
            ) by {
                if j == n - 1 {
                    assert(false);
                }
            }
        }
    }
}

/// Every key closes the confirmation prompt, and nothing is left to
/// confirm.
pub proof fn law_prompt_closes(
    o: App,
    key: KeyEvent,
    width: u16,
    height: u16,
    now: u64,
    n: App,
    r: KeyAction,
)
    requires
        o.show_confirm,
        key_handled(o, key, width, height, now, n, r),
    ensures
        !n.show_confirm,
        n.confirm_action == ConfirmAction::Nothing,
{
}

/// Esc while typing a search of the Sessions tab ends it with no query and
/// no filter.
pub proof fn law_esc_ends_search(
    o: App,
    key: KeyEvent,
    width: u16,
    height: u16,
    now: u64,
    n: App,
    r: KeyAction,
)
    requires
        !o.show_confirm,
        o.input_mode == InputMode::Search,
        key.code == KeyCode::Esc,
        key_handled(o, key, width, height, now, n, r),
    ensures
        n.input_mode == InputMode::Normal,
        n.search_query@.len() == 0,
        n.filtered_indices@.len() == 0,
        r is Nothing,
{
}

/// Outside the prompt and the Sessions search, F1 to F4 always show their
/// tab: Sessions, Terminal (ready for typing), Instances, Containers.
pub proof fn law_function_keys_show_tabs(
    o: App,
    key: KeyEvent,
    width: u16,
    height: u16,
    now: u64,
    n: App,
    r: KeyAction,
)
    requires
        !o.show_confirm,
        o.input_mode != InputMode::Search,
        key_handled(o, key, width, height, now, n, r),
    ensures
        key.code == KeyCode::F(1) ==> n.active_tab == AppTab::Sessions && n.input_mode == InputMode::Normal,
        key.code == KeyCode::F(2) ==> n.active_tab == AppTab::Terminal && n.input_mode
            == InputMode::TerminalInput,
        key.code == KeyCode::F(3) ==> n.active_tab == AppTab::Instances && n.input_mode == InputMode::Normal,
        key.code == KeyCode::F(4) ==> n.active_tab == AppTab::Containers && n.input_mode == InputMode::Normal,
{
}


/// Every line that is being or has been filled holds at most `width` bytes,
/// or is a single one of the words.
proof fn lemma_fill_fits(words: Seq<Seq<char>>, width: nat)
    ensures
        ({
            let (done, cur) = fill_lines(words, width);
            &&& forall|i: int| 0 <= i < done.len() ==> utf8_len(#[trigger] done[i]) <= width || words.contains(done[i])
            &&& utf8_len(cur) <= width || words.contains(cur)
        }),
    decreases words.len(),
{
    if words.len() > 0 {
        let pre = words.drop_last();
        let w = words.last();
        lemma_fill_fits(pre, width);
        let (done, cur) = fill_lines(pre, width);
        assert(words.contains(w)) by {
            assert(words[words.len() - 1] == w);
        }
        assert forall|x: Seq<char>| pre.contains(x) implies words.contains(x) by {
            let k = choose|k: int| 0 <= k < pre.len() && pre[k] == x;
            assert(words[k] == x);
        }
        if cur.len() > 0 && utf8_len(cur) + 1 + utf8_len(w) <= width {
            lemma_utf8_len_concat(cur, " "@);
            lemma_utf8_len_concat(cur + " "@, w);
            reveal_strlit(" ");
            assert(utf8_len(" "@) == 1) by {
                assert(" "@.drop_last() =~= Seq::<char>::empty());
                assert(utf8_len(Seq::<char>::empty()) == 0);
            }
        }
    }
}

/// A wrapped line of an error message holds at most `width` bytes, unless
/// it is a single word longer than that.
pub proof fn law_wrapped_lines_fit(err: Seq<char>, width: nat, i: int)
    requires
        0 <= i < wrapped_lines(err, width).len(),
    ensures
        utf8_len(wrapped_lines(err, width)[i]) <= width || words_from(err, 0).contains(
            wrapped_lines(err, width)[i],
        ),
{
    lemma_fill_fits(words_from(err, 0), width);
}


/// `b` has the shape `YYYY-MM-DDTHH:MM:SS`: digits, with `-` at positions
/// 4 and 7, `T` at 10, `:` at 13 and 16.
pub open spec fn iso_shape(b: Seq<char>) -> bool {
    &&& b.len() == 19
    &&& forall|k: int|
        0 <= k < 19 ==> if k == 4 || k == 7 {
            #[trigger] b[k] == '-'
        } else if k == 10 {
            b[k] == 'T'
        } else if k == 13 || k == 16 {
            b[k] == ':'
        } else {
            '0' <= b[k] <= '9'
        }
}

/// A text whose first and last characters are not whitespace is its own
/// trim.
proof fn lemma_trim_id(s: Seq<char>)
    requires
        s.len() > 0,
        !is_ws(s[0]),
        !is_ws(s.last()),
    ensures
        trim(s) == s,
{
    assert(trim_start(s) == s);
    assert(trim_end(s) == s);
}

/// `b + sfx` with `b` of the timestamp shape, where `sfx` is one of the UTC
/// designators, loses exactly `sfx` to `strip_utc`.
proof fn lemma_strip_designator(b: Seq<char>, sfx: Seq<char>)
    requires
        iso_shape(b),
        sfx == "Z"@ || sfx == "UTC"@ || sfx == "+00:00"@ || sfx == "+0000"@,
    ensures
        trim(b + sfx) == b + sfx,
        strip_utc(b + sfx) == b,
{
    reveal_strlit("Z");
    reveal_strlit("UTC");
    reveal_strlit("+00:00");
    reveal_strlit("+0000");
    let s = b + sfx;
    assert(s[0] == b[0]);
    assert('0' <= b[0] <= '9');
    assert(s.last() == sfx.last());
    lemma_trim_id(s);
    let n = s.len() as int;
    if sfx == "UTC"@ {
        assert(s.subrange(n - 3, n) =~= "UTC"@);
        assert(s.take(n - 3) =~= b);
    } else if sfx == "Z"@ {
        assert(s.subrange(n - 3, n)[2] == 'Z');
        assert(!ends_with(s, "UTC"@));
        assert(s.subrange(n - 1, n) =~= "Z"@);
        assert(s.take(n - 1) =~= b);
    } else if sfx == "+00:00"@ {
        assert(s.subrange(n - 3, n)[2] == '0');
        assert(!ends_with(s, "UTC"@));
        assert(s.subrange(n - 1, n)[0] == '0');
        assert(!ends_with(s, "Z"@));
        assert(s.subrange(n - 6, n) =~= "+00:00"@);
        assert(s.take(n - 6) =~= b);
    } else {
        assert(s.subrange(n - 3, n)[2] == '0');
        assert(!ends_with(s, "UTC"@));
        assert(s.subrange(n - 1, n)[0] == '0');
        assert(!ends_with(s, "Z"@));
        assert(b[18] == s[18]);
        assert('0' <= b[18] <= '9');
        assert(s.subrange(n - 6, n)[0] == b[18]);
        assert(!ends_with(s, "+00:00"@));
        assert(s.subrange(n - 5, n) =~= "+0000"@);
        assert(s.take(n - 5) =~= b);
    }
}

/// A timestamp `YYYY-MM-DDTHH:MM:SS` reads the same with any UTC designator
/// (`Z`, `UTC`, `+00:00`, `+0000`) as without one.
pub proof fn law_utc_designators_agree(b: Seq<char>)
    requires
        iso_shape(b),
    ensures
        iso8601_to_unix(b + "Z"@) == iso8601_to_unix(b),
        iso8601_to_unix(b + "UTC"@) == iso8601_to_unix(b),
        iso8601_to_unix(b + "+00:00"@) == iso8601_to_unix(b),
        iso8601_to_unix(b + "+0000"@) == iso8601_to_unix(b),
{
    assert('0' <= b[0] <= '9');
    assert('0' <= b[18] <= '9');
    assert(b.last() == b[18]);
    lemma_trim_id(b);
    reveal_strlit("Z");
    reveal_strlit("UTC");
    reveal_strlit("+00:00");
    reveal_strlit("+0000");
    assert(b.subrange(16, 19)[2] == b[18]);
    assert(!ends_with(b, "UTC"@));
    assert(b.subrange(18, 19)[0] == b[18]);
    assert(!ends_with(b, "Z"@));
    assert(b.subrange(13, 19)[0] == ':');
    assert(!ends_with(b, "+00:00"@));
    assert(b.subrange(14, 19)[0] == b[14]);
    assert('0' <= b[14] <= '9');
    assert(!ends_with(b, "+0000"@));
    assert(strip_utc(b) == b);
    lemma_strip_designator(b, "Z"@);
    lemma_strip_designator(b, "UTC"@);
    lemma_strip_designator(b, "+00:00"@);
    lemma_strip_designator(b, "+0000"@);
}


proof fn lemma_nexts(o: Completer, m: nat, k: nat)
    requires
        suggestion_count(o) == Some(m),
        m > 0,
        o.selected_index < m,
    ensures
        nexts(o, k) == (Completer { selected_index: ((o.selected_index + k) % (m as int)) as usize, ..o }),
    decreases k,
{
    let res = o.cached_result->0;
    assert(res.suggestions.len() == res.suggestions@.len());
    if k == 0 {
        assert((o.selected_index + 0) % (m as int) == o.selected_index) by {
            vstd::arithmetic::div_mod::lemma_small_mod(o.selected_index as nat, m);
        }
    } else {
        lemma_nexts(o, m, (k - 1) as nat);
        let x = o.selected_index + k - 1;
        vstd::arithmetic::div_mod::lemma_add_mod_noop(x, 1, m as int);
        if m > 1 {
            vstd::arithmetic::div_mod::lemma_small_mod(1, m);
        } else {
            assert(x % 1 == 0 && (x + 1) % 1 == 0) by {
                vstd::arithmetic::div_mod::lemma_mod_bound(x, 1);
                vstd::arithmetic::div_mod::lemma_mod_bound(x + 1, 1);
            }
        }
        assert(0 <= x % (m as int) < m) by {
            vstd::arithmetic::div_mod::lemma_mod_bound(x, m as int);
        }
        assert(0 <= (x + 1) % (m as int) < m) by {
            vstd::arithmetic::div_mod::lemma_mod_bound(x + 1, m as int);
        }
        let p = nexts(o, (k - 1) as nat);
        assert(suggestion_count(p) == Some(m));
        assert(p.selected_index == x % (m as int));
    }
}

/// With `m` suggestions shown, `next` steps through them in turn: after `k`
/// calls the selection is `k` further on (wrapping), nothing else changes,
/// and `m` calls come back to where they started.
pub proof fn law_next_cycles(o: Completer, m: nat, k: nat)
    requires
        suggestion_count(o) == Some(m),
        m > 0,
        o.selected_index < m,
    ensures
        forall|n: Completer| completer_next(o, n) <==> n == nexts(o, 1),
        nexts(o, k).selected_index == (o.selected_index + k) % (m as int),
        nexts(o, k) == (Completer { selected_index: nexts(o, k).selected_index, ..o }),
        nexts(o, m) == o,
{
    lemma_nexts(o, m, k);
    let res = o.cached_result->0;
    assert(res.suggestions.len() == res.suggestions@.len());
    vstd::arithmetic::div_mod::lemma_mod_bound(o.selected_index + k, m as int);
    lemma_nexts(o, m, m);
    lemma_nexts(o, m, 1);
    assert(nexts(o, 0) == o);
    vstd::arithmetic::div_mod::lemma_mod_add_multiples_vanish(o.selected_index as int, m as int);
    vstd::arithmetic::div_mod::lemma_small_mod(o.selected_index as nat, m);
}

/// A keystroke restarts the pause: the suggestions shown stay as they are,
/// and no input is due for a query until `debounce_ms` (150 ms for a new
/// completer) have passed since it.
pub proof fn law_keystroke_restarts_pause(o: Completer, n: Completer, now: u64, input: Seq<char>, t: u64)
    requires
        keystroke_noted(o, n, now),
        t < now + n.debounce_ms,
    ensures
        n.cached_result == o.cached_result,
        n.selected_index == o.selected_index,
        n.visible == o.visible,
        n.debounce_ms == o.debounce_ms,
        !query_due(n, input, t),
{
}


// ─── The shape of the ECS tree ──────────────────────────────────────────────
/// The depth a row of each kind stands at: clusters 0, services 1, tasks 2,
/// containers 3.
pub open spec fn kind_depth(k: EcsTreeItemKind) -> u8 {
    match k {
        EcsTreeItemKind::Cluster => 0,
        EcsTreeItemKind::Service => 1,
        EcsTreeItemKind::Task => 2,
        EcsTreeItemKind::Container => 3,
    }
}

/// Every row stands at its kind's depth.
pub open spec fn rows_kinded(t: Seq<EcsTreeItemV>) -> bool {
    forall|i: int| 0 <= i < t.len() ==> (#[trigger] t[i]).depth == kind_depth(t[i].kind)
}

/// No row is more than one level deeper than the row before it.
pub open spec fn steps_ok(t: Seq<EcsTreeItemV>) -> bool {
    forall|i: int, j: int|
        #![trigger t[i], t[j]]
        0 <= i && j == i + 1 && j < t.len() ==> t[j].depth <= t[i].depth + 1
}

/// The ECS tree is well shaped: it starts at a cluster (if it has rows),
/// every row stands at its kind's depth, and no row is more than one level
/// deeper than the row before it.
pub open spec fn tree_shaped(t: Seq<EcsTreeItemV>) -> bool {
    &&& t.len() > 0 ==> t[0].depth == 0
    &&& rows_kinded(t)
    &&& steps_ok(t)
}

proof fn lemma_concat_shape(a: Seq<EcsTreeItemV>, b: Seq<EcsTreeItemV>)
    requires
        rows_kinded(a),
        rows_kinded(b),
        steps_ok(a),
        steps_ok(b),
        a.len() > 0 && b.len() > 0 ==> b[0].depth <= a.last().depth + 1,
    ensures
        rows_kinded(a + b),
        steps_ok(a + b),
{
    let c = a + b;
    assert forall|i: int| 0 <= i < c.len() implies (#[trigger] c[i]).depth == kind_depth(c[i].kind) by {
        if i < a.len() {
            assert(c[i] == a[i]);
        } else {
            assert(c[i] == b[i - a.len()]);
        }
    }
    assert forall|i: int, j: int|
        #![trigger c[i], c[j]]
        0 <= i && j == i + 1 && j < c.len() implies c[j].depth <= c[i].depth + 1 by {
        if j < a.len() {
            assert(c[i] == a[i] && c[j] == a[j]);
        } else if i >= a.len() {
            assert(c[i] == b[i - a.len()] && c[j] == b[j - a.len()]);
            assert(b[j - a.len()].depth <= b[i - a.len()].depth + 1);
        } else {
            assert(c[i] == a.last() && c[j] == b[0]);
        }
    }
}

proof fn lemma_sub_shape(t: Seq<EcsTreeItemV>, lo: int, hi: int)
    requires
        0 <= lo <= hi <= t.len(),
        rows_kinded(t),
        steps_ok(t),
    ensures
        rows_kinded(t.subrange(lo, hi)),
        steps_ok(t.subrange(lo, hi)),
{
    let c = t.subrange(lo, hi);
    assert forall|i: int| 0 <= i < c.len() implies (#[trigger] c[i]).depth == kind_depth(c[i].kind) by {
        assert(c[i] == t[lo + i]);
    }
    assert forall|i: int, j: int|
        #![trigger c[i], c[j]]
        0 <= i && j == i + 1 && j < c.len() implies c[j].depth <= c[i].depth + 1 by {
        assert(c[i] == t[lo + i] && c[j] == t[lo + j]);
    }
}

/// Row `idx` followed directly by the rows from `subtree_end` on keeps the
/// steps: the row after a subtree is no deeper than the subtree's root.
proof fn lemma_after_subtree(t: Seq<EcsTreeItemV>, idx: int)
    requires
        0 <= idx < t.len(),
    ensures
        idx + 1 <= subtree_end(t, idx) <= t.len(),
        subtree_end(t, idx) < t.len() ==> t[subtree_end(t, idx)].depth <= t[idx].depth,
        forall|k: int| idx < k < subtree_end(t, idx) ==> (#[trigger] t[k]).depth > t[idx].depth,
{
    lemma_subtree_end_from(t, t[idx].depth, idx + 1);
}

/// Rows that replace the subtree of row `idx`, each deeper than it and the
/// first at most one level deeper, keep the tree well shaped.
proof fn lemma_with_children_shape(t: Seq<EcsTreeItemV>, idx: int, ch: Seq<EcsTreeItemV>)
    requires
        tree_shaped(t),
        0 <= idx < t.len(),
        rows_kinded(ch),
        steps_ok(ch),
        forall|k: int| 0 <= k < ch.len() ==> (#[trigger] ch[k]).depth > t[idx].depth,
        ch.len() > 0 ==> ch[0].depth <= t[idx].depth + 1,
    ensures
        tree_shaped(with_children(t, idx, ch)),
{
    lemma_after_subtree(t, idx);
    let se = subtree_end(t, idx);
    let a = t.take(idx + 1);
    let b = t.skip(se);
    assert(a =~= t.subrange(0, idx + 1));
    assert(b =~= t.subrange(se, t.len() as int));
    lemma_sub_shape(t, 0, idx + 1);
    lemma_sub_shape(t, se, t.len() as int);
    assert(a.last() == t[idx]);
    lemma_concat_shape(a, ch);
    if ch.len() > 0 {
        assert((a + ch).last() == ch.last());
        assert(ch.last() == ch[ch.len() - 1]);
    } else {
        assert(a + ch =~= a);
    }
    if b.len() > 0 {
        assert(b[0] == t[se]);
    }
    lemma_concat_shape(a + ch, b);
    assert(with_children(t, idx, ch) == a + ch + b);
    assert((a + ch + b)[0] == t[0]);
}

/// Marking rows (open, loading) keeps the shape: depths and kinds stay.
proof fn lemma_same_depths_shape(t: Seq<EcsTreeItemV>, u: Seq<EcsTreeItemV>)
    requires
        tree_shaped(t),
        u.len() == t.len(),
        forall|i: int| 0 <= i < t.len() ==> (#[trigger] u[i]).depth == t[i].depth && u[i].kind == t[i].kind,
    ensures
        tree_shaped(u),
{
    assert forall|i: int, j: int|
        #![trigger u[i], u[j]]
        0 <= i && j == i + 1 && j < u.len() implies u[j].depth <= u[i].depth + 1 by {
        assert(t[j].depth <= t[i].depth + 1);
    }
}

proof fn lemma_clusters_shape(cs: Seq<crate::containers::EcsCluster>)
    ensures
        tree_shaped(cluster_rows(cs)),
{
}

proof fn lemma_tasks_shape(ts: Seq<EcsTaskData>, c: Seq<char>, sv: Seq<char>)
    ensures
        rows_kinded(tasks_rows(ts, c, sv)),
        steps_ok(tasks_rows(ts, c, sv)),
        forall|k: int| 0 <= k < tasks_rows(ts, c, sv).len() ==> (#[trigger] tasks_rows(ts, c, sv)[k]).depth >= 2,
        tasks_rows(ts, c, sv).len() > 0 ==> tasks_rows(ts, c, sv)[0].depth == 2,
    decreases ts.len(),
{
    if ts.len() > 0 {
        let pre = tasks_rows(ts.drop_last(), c, sv);
        let last = task_rows(ts.last(), c, sv);
        lemma_tasks_shape(ts.drop_last(), c, sv);
        assert(rows_kinded(last));
        assert(steps_ok(last));
        assert(last[0].depth == 2);
        if pre.len() > 0 {
            assert(pre.last() == pre[pre.len() - 1]);
        }
        lemma_concat_shape(pre, last);
        let all = pre + last;
        assert(tasks_rows(ts, c, sv) == all);
        assert forall|k: int| 0 <= k < all.len() implies (#[trigger] all[k]).depth >= 2 by {
            if k < pre.len() {
                assert(all[k] == pre[k]);
            } else {
                assert(all[k] == last[k - pre.len()]);
            }
        }
        if pre.len() > 0 {
            assert(all[0] == pre[0]);
        } else {
            assert(all[0] == last[0]);
        }
    }
}

/// The row that `find_row_from` finds has the kind asked for.
proof fn lemma_found_kind(t: Seq<EcsTreeItemV>, kind: EcsTreeItemKind, name: Seq<char>, cl: Option<Seq<char>>, i: int)
    ensures
        match find_row_from(t, kind, name, cl, i) {
            Some(k) => i <= k < t.len() && t[k].kind == kind,
            None => true,
        },
    decreases t.len() - i,
{
    if 0 <= i < t.len() {
        lemma_found_kind(t, kind, name, cl, i + 1);
    }
}

proof fn lemma_open_shape(t: Seq<EcsTreeItemV>, idx: int, ch: Seq<EcsTreeItemV>)
    requires
        tree_shaped(t),
        0 <= idx < t.len(),
        rows_kinded(ch),
        steps_ok(ch),
        forall|k: int| 0 <= k < ch.len() ==> (#[trigger] ch[k]).depth > t[idx].depth,
        ch.len() > 0 ==> ch[0].depth <= t[idx].depth + 1,
    ensures
        tree_shaped(expand_with(t, idx, ch)),
{
    let u = t.update(idx, set_open(t[idx], true));
    lemma_same_depths_shape(t, u);
    assert(u[idx].depth == t[idx].depth);
    assert(subtree_end(u, idx) == subtree_end(t, idx)) by {
        lemma_same_subtree_end(t, u, t[idx].depth, idx + 1);
    }
    lemma_with_children_shape(u, idx, ch);
}

proof fn lemma_same_subtree_end(t: Seq<EcsTreeItemV>, u: Seq<EcsTreeItemV>, d: u8, j: int)
    requires
        u.len() == t.len(),
        forall|i: int| 0 <= i < t.len() ==> (#[trigger] u[i]).depth == t[i].depth,
    ensures
        crate::containers::subtree_end_from(u, d, j) == crate::containers::subtree_end_from(t, d, j),
    decreases t.len() - j,
{
    if 0 <= j < t.len() {
        lemma_same_subtree_end(t, u, d, j + 1);
    }
}

/// One fetched result keeps the ECS tree well shaped.
proof fn lemma_result_shape(s: ContainersStateV, r: FetchResult)
    requires
        tree_shaped(s.ecs_tree),
    ensures
        tree_shaped(apply_result(s, r).ecs_tree),
{
    match r {
        FetchResult::EcsClusters(cs) => {
            lemma_clusters_shape(cs@);
        },
        FetchResult::EcsServices(c, ss) => {
            lemma_found_kind(s.ecs_tree, EcsTreeItemKind::Cluster, c@, None, 0);
            match find_row_from(s.ecs_tree, EcsTreeItemKind::Cluster, c@, None, 0) {
                Some(i) => {
                    let ch = service_rows(ss@, c@);
                    assert(s.ecs_tree[i].depth == 0);
                    assert forall|i1: int, j1: int|
                        #![trigger ch[i1], ch[j1]]
                        0 <= i1 && j1 == i1 + 1 && j1 < ch.len() implies ch[j1].depth <= ch[i1].depth + 1 by {}
                    lemma_open_shape(s.ecs_tree, i, ch);
                },
                None => {},
            }
        },
        FetchResult::EcsTasks(c, sv, ts) => {
            lemma_found_kind(s.ecs_tree, EcsTreeItemKind::Service, sv@, Some(c@), 0);
            match find_row_from(s.ecs_tree, EcsTreeItemKind::Service, sv@, Some(c@), 0) {
                Some(i) => {
                    assert(s.ecs_tree[i].depth == 1);
                    lemma_tasks_shape(ts@, c@, sv@);
                    lemma_open_shape(s.ecs_tree, i, tasks_rows(ts@, c@, sv@));
                },
                None => {},
            }
        },
        FetchResult::Error(e) => {
            let u = Seq::new(s.ecs_tree.len(), |i: int| set_loading(s.ecs_tree[i], false));
            lemma_same_depths_shape(s.ecs_tree, u);
        },
        _ => {},
    }
}

/// Fetched results, applied in order as `tick` does, keep the ECS tree well
/// shaped (and `tick` keeps the selection within it, see `wf`).
pub proof fn law_tick_keeps_tree_shape(s: ContainersStateV, rs: Seq<FetchResult>)
    requires
        tree_shaped(s.ecs_tree),
    ensures
        tree_shaped(apply_results(s, rs).ecs_tree),
    decreases rs.len(),
{
    if rs.len() > 0 {
        lemma_result_shape(s, rs[0]);
        law_tick_keeps_tree_shape(apply_result(s, rs[0]), rs.skip(1));
    }
}

/// Collapsing a row keeps the ECS tree well shaped.
proof fn lemma_collapse_shape(t: Seq<EcsTreeItemV>, idx: int)
    requires
        tree_shaped(t),
        0 <= idx < t.len(),
    ensures
        tree_shaped(collapse_tree(t, idx)),
{
    lemma_after_subtree(t, idx);
    let se = subtree_end(t, idx);
    let a = t.take(idx);
    let row = seq![EcsTreeItemV { expanded: false, ..t[idx] }];
    let b = t.skip(se);
    assert(a =~= t.subrange(0, idx));
    assert(b =~= t.subrange(se, t.len() as int));
    lemma_sub_shape(t, 0, idx);
    lemma_sub_shape(t, se, t.len() as int);
    if idx > 0 {
        assert(a.last() == t[idx - 1]);
        assert(t[idx].depth <= t[idx - 1].depth + 1);
    }
    lemma_concat_shape(a, row);
    assert((a + row).last() == row[0]);
    if b.len() > 0 {
        assert(b[0] == t[se]);
    }
    lemma_concat_shape(a + row, b);
    assert(collapse_tree(t, idx) == a + row + b);
    if idx == 0 {
        assert((a + row + b)[0] == row[0]);
    } else {
        assert((a + row + b)[0] == t[0]);
    }
}

/// Toggling the selected ECS row keeps the tree well shaped.
pub proof fn law_toggle_keeps_tree_shape(o: ContainersState, n: ContainersState, r: Option<FetchRequest>)
    requires
        o.wf(),
        tree_shaped(tree_view(o.ecs_tree@)),
        ecs_toggled(o, n, r),
    ensures
        n.wf(),
        tree_shaped(tree_view(n.ecs_tree@)),
{
    let t = tree_view(o.ecs_tree@);
    if o.ecs_tree@.len() > 0 {
        let idx = o.selected_ecs_tree as int;
        if t[idx].expanded {
            lemma_collapse_shape(t, idx);
        } else if t[idx].kind == EcsTreeItemKind::Cluster || t[idx].kind == EcsTreeItemKind::Service {
            lemma_same_depths_shape(t, t.update(idx, set_loading(t[idx], true)));
        }
    }
}

/// Collapsing the selected ECS row (or moving to its parent) keeps the tree
/// well shaped.
pub proof fn law_collapse_keeps_tree_shape(o: ContainersState, n: ContainersState)
    requires
        o.wf(),
        tree_shaped(tree_view(o.ecs_tree@)),
        ecs_collapsed(o, n),
    ensures
        n.wf(),
        tree_shaped(tree_view(n.ecs_tree@)),
{
    let t = tree_view(o.ecs_tree@);
    if t.len() > 0 && t[o.selected_ecs_tree as int].expanded {
        lemma_collapse_shape(t, o.selected_ecs_tree as int);
    }
}


/// The first `k` batches of `a`, one after another.
pub open spec fn batches(a: Seq<Seq<char>>, b: int, k: nat) -> Seq<Seq<char>>
    decreases k,
{
    if k == 0 {
        Seq::empty()
    } else {
        batches(a, b, (k - 1) as nat) + batch_of(a, b, k - 1)
    }
}

/// Describing the listed names batch after batch, as a listing does until it
/// asks for nothing more, describes every name once, in order: the first `k`
/// batches are the first `k * b` names (all of them once `k * b` reaches
/// their number).
#[verifier::spinoff_prover]
pub proof fn law_batches_cover_names(a: Seq<Seq<char>>, b: int, k: nat)
    requires
        b > 0,
    ensures
        batches(a, b, k) == a.take(if k * b < a.len() { k * b } else { a.len() as int }),
        k * b >= a.len() ==> batches(a, b, k) == a,
    decreases k,
{
    if k == 0 {
        assert(a.take(0) =~= Seq::<Seq<char>>::empty());
    } else {
        let j = (k - 1) as nat;
        law_batches_cover_names(a, b, j);
        assert(j * b + b == k * b) by (nonlinear_arith)
            requires
                j == k - 1,
        ;
        assert(j * b >= 0) by (nonlinear_arith)
            requires
                b > 0,
        ;
        let prev = if j * b < a.len() { j * b } else { a.len() as int };
        let cur = if k * b < a.len() { k * b } else { a.len() as int };
        if j * b < a.len() {
            assert(a.take(prev) + a.subrange(prev, cur) =~= a.take(cur));
        } else {
            assert(batch_of(a, b, j as int) =~= Seq::<Seq<char>>::empty());
            assert(batches(a, b, k) =~= a.take(prev));
        }
    }
    if k * b >= a.len() {
        assert(a.take(a.len() as int) =~= a);
    }
}


/// Typing a character on a well-formed command line restarts the 150 ms
/// pause: the suggestions shown stay as they are, and no input is due for
/// a query until 150 ms have passed since the keystroke.
pub proof fn law_typing_restarts_pause(
    o: TerminalState,
    n: TerminalState,
    c: char,
    now: u64,
    input: Seq<char>,
    t: u64,
)
    requires
        o.wf(),
        char_inserted(o, n, c, now),
        t < now + 150,
    ensures
        n.completer.debounce_ms == 150,
        n.completer.cached_result == o.completer.cached_result,
        n.completer.selected_index == o.completer.selected_index,
        n.completer.visible == o.completer.visible,
        !query_due(n.completer, input, t),
{
}


// ─── Watching an SSO session ────────────────────────────────────────────────
/// A liveness check of a connected SSO session, as `liveness_check` makes it
/// (its two postconditions, for manager `m0` before and `m1` after, with the
/// check's and the expiry's values): an identity check that reports the
/// session expired leaves it Expired (no longer Connected), with no time left
/// and a prompt to log in again as its last output line, and stops the
/// watch; a valid check or a failed one keeps it Connected and the watch
/// going; no other session changes.
pub proof fn law_liveness_check_outcome(
    m0: SessionManager,
    m1: SessionManager,
    name: Seq<char>,
    check: StsV,
    expiry: Option<(Seq<char>, u64)>,
    r: bool,
)
    requires
        match sview(m0, name) {
            Some(s) if s.status is Connected => {
                let o = liveness_outcome(s, check, expiry);
                r == o.0 && sview(m1, name) == Some(o.1)
            },
            _ => !r && m1 == m0,
        },
        others_unchanged(m0, m1, name),
        sview(m0, name) matches Some(s) && s.status is Connected,
    ensures
        check is Expired ==> !r && (sview(m1, name) matches Some(s1) && s1.status is Expired
            && s1.token_remaining_secs == Some(0u64) && s1.output.last() == ">>> Re-login required (press Enter)"@
            && s1.pid == sview(m0, name)->0.pid),
        !(check is Expired) ==> r && (sview(m1, name) matches Some(s1) && s1.status is Connected
            && s1.pid == sview(m0, name)->0.pid),
        forall|n: Seq<char>| n != name ==> #[trigger] session_of(m1, n) == session_of(m0, n),
{
}


// ─── Refreshing the instance list ───────────────────────────────────────────
/// `r` on the Instances tab (nothing else holding the keyboard) lists the
/// instances again: with a selected profile it returns the listing request
/// for that profile and the chosen region, clears the list and marks it
/// loading, and changes nothing outside the tab; with no profile it does
/// nothing.
pub proof fn law_r_refreshes_instances(
    o: App,
    key: KeyEvent,
    width: u16,
    height: u16,
    now: u64,
    n: App,
    r: KeyAction,
)
    requires
        !o.show_confirm,
        o.input_mode == InputMode::Normal,
        o.active_tab == AppTab::Instances,
        !o.instances_state.show_info_popup,
        !o.instances_state.search_active,
        key.code == KeyCode::Char('r'),
        key_handled(o, key, width, height, now, n, r),
    ensures
        o.instances_state.active_profile_idx < o.instances_state.profiles@.len() ==> {
            &&& r matches KeyAction::Instances(InstancesRequest::ListInstances { profile, region })
            &&& profile@ == o.instances_state.profiles@[o.instances_state.active_profile_idx as int]@
            &&& region@ == o.instances_state.regions@[o.instances_state.region_idx as int]@
            &&& n.instances_state.loading_instances
            &&& n.instances_state.instances@.len() == 0
            &&& n.instances_state.profiles == o.instances_state.profiles
            &&& n.instances_state.region_idx == o.instances_state.region_idx
            &&& n == (App { instances_state: n.instances_state, ..o })
        },
        o.instances_state.active_profile_idx >= o.instances_state.profiles@.len() ==> r is Nothing && n == o,
{
}


// ─── Flags of desktop aliases ───────────────────────────────────────────────
proof fn lemma_gui_lines_flags(ls: Seq<Seq<char>>, group: Option<Seq<char>>, sub: Option<Seq<char>>)
    ensures
        forall|k: int|
            0 <= k < crate::gui::parser::parse_lines(ls, group, sub).len() ==> {
                let a = #[trigger] crate::gui::parser::parse_lines(ls, group, sub)[k];
                &&& a.profile == flag_arg(a.command, "--profile"@)
                &&& a.region == flag_arg(a.command, "--region"@)
            },
    decreases ls.len(),
{
    if ls.len() > 0 {
        let rest = ls.drop_first();
        lemma_gui_lines_flags(rest, group, sub);
        let line = trim(ls[0]);
        if line.len() > 0 {
            match crate::gui::parser::gui_group_from(line, 0) {
                Some((g, x)) => {
                    lemma_gui_lines_flags(
                        rest,
                        Some(trim(g)),
                        match x {
                            Some(y) => Some(trim(y)),
                            None => None,
                        },
                    );
                },
                None => {},
            }
        }
    }
}

/// Every alias of a desktop alias file carries the `--profile` and
/// `--region` of its own command (the regex `--flag\s+(\S+)`), whatever its
/// kind: an SSO login, an SSM session or any other command.
pub proof fn law_desktop_aliases_keep_profile_and_region(content: Seq<char>, k: int)
    requires
        0 <= k < crate::gui::parser::parse_spec(content).len(),
    ensures
        crate::gui::parser::parse_spec(content)[k].profile == flag_arg(
            crate::gui::parser::parse_spec(content)[k].command,
            "--profile"@,
        ),
        crate::gui::parser::parse_spec(content)[k].region == flag_arg(
            crate::gui::parser::parse_spec(content)[k].command,
            "--region"@,
        ),
{
    lemma_gui_lines_flags(lines_of(content), None, None);
}


// ─── Settings of `~/.aws/config` ────────────────────────────────────────────
/// A setting name: lowercase letters and underscores.
pub open spec fn setting_name(key: Seq<char>) -> bool {
    key.len() > 0 && forall|k: int| 0 <= k < key.len() ==> ('a' <= #[trigger] key[k] <= 'z' || key[k] == '_')
}

proof fn lemma_trim_setting(key: Seq<char>)
    requires
        setting_name(key),
    ensures
        trim(key + seq![' ']) == key,
{
    let t = key + seq![' '];
    assert(!is_ws(t[0])) by {
        assert(t[0] == key[0]);
    }
    assert(trim_start(t) == t);
    assert(t.drop_last() =~= key);
    assert(!is_ws(key.last())) by {
        assert(key.last() == key[key.len() - 1]);
    }
    assert(trim_end(key) == key);
}

proof fn lemma_trim_after_space(w: Seq<char>)
    ensures
        trim(seq![' '] + w) == trim(w),
{
    let t = seq![' '] + w;
    assert(t.drop_first() =~= w);
    assert(trim_start(t) == trim_start(w));
}

/// A line `KEY = VALUE` in the section of a profile of `~/.aws/config` sets
/// the one setting that KEY names (`region`, `sso_session`, `sso_account_id`,
/// `sso_role_name`, `sso_start_url` or `sso_region`) to VALUE, trimmed, and
/// leaves every other setting, the other profiles and the sessions as they
/// were; a key that names no setting changes nothing.
pub proof fn law_config_line_sets_its_setting(st: ConfigScan, i: int, key: Seq<char>, w: Seq<char>)
    requires
        st.section == SectionV::Profile(i),
        0 <= i < st.profiles.len(),
        setting_name(key),
    ensures
        ({
            let n = config_step(st, key + seq![' ', '=', ' '] + w);
            let p = st.profiles[i];
            let q = n.profiles[i];
            let v = Some(trim(w));
            &&& n.section == st.section && n.sessions == st.sessions
            &&& n.profiles.len() == st.profiles.len()
            &&& forall|j: int| 0 <= j < st.profiles.len() && j != i ==> n.profiles[j] == st.profiles[j]
            &&& q.name == p.name && q.source == p.source && q.is_sso == p.is_sso
            &&& q.region == if key == "region"@ { v } else { p.region }
            &&& q.sso_session == if key == "sso_session"@ { v } else { p.sso_session }
            &&& q.sso_account_id == if key == "sso_account_id"@ { v } else { p.sso_account_id }
            &&& q.sso_role_name == if key == "sso_role_name"@ { v } else { p.sso_role_name }
            &&& q.sso_start_url == if key == "sso_start_url"@ { v } else { p.sso_start_url }
            &&& q.sso_region == if key == "sso_region"@ { v } else { p.sso_region }
        }),
{
    let t = key + seq![' ', '=', ' '] + w;
    let e = key.len() as int + 1;
    assert(t[0] == key[0]);
    assert(crate::gui::aws_config::is_content(t));
    assert(!crate::gui::aws::is_section_line(t));
    assert(t[e] == '=');
    crate::text::lemma_first_char_from(t, '=', 0);
    match crate::text::first_char_from(t, '=', 0) {
        Some(x) => {
            if x < e {
                if x < key.len() {
                    assert(t[x] == key[x]);
                } else {
                    assert(t[x] == ' ');
                }
            }
            assert(x == e);
        },
        None => {
            assert(false);
        },
    }
    assert(t.take(e) =~= key + seq![' ']);
    lemma_trim_setting(key);
    assert(t.skip(e + 1) =~= seq![' '] + w);
    lemma_trim_after_space(w);
    reveal_strlit("region");
    reveal_strlit("sso_session");
    reveal_strlit("sso_account_id");
    reveal_strlit("sso_role_name");
    reveal_strlit("sso_start_url");
    reveal_strlit("sso_region");
    assert("region"@.len() == 6 && "sso_session"@.len() == 11 && "sso_account_id"@.len() == 14);
    assert("sso_role_name"@.len() == 13 && "sso_start_url"@.len() == 13 && "sso_region"@.len() == 10);
    assert("sso_role_name"@[4] != "sso_start_url"@[4]);
    assert(crate::text::first_char_from(t, '=', 0) == Some(e));
    assert(trim(t.take(e)) == key);
    assert(trim(t.skip(e + 1)) == trim(w));
    let n = config_step(st, t);
    assert(n == ConfigScan {
        profiles: st.profiles.update(i, crate::gui::aws_config::set_profile_key(st.profiles[i], key, trim(w))),
        ..st
    });
}


// ─── Alias lines ────────────────────────────────────────────────────────────
/// A character an alias name may hold: a letter, a digit, `_` or `-`.
pub open spec fn alias_name_char(c: char) -> bool {
    ('a' <= c && c <= 'z') || ('A' <= c && c <= 'Z') || ('0' <= c && c <= '9') || c == '_' || c == '-'
}

/// The line `alias NAME='CMD'`.
pub open spec fn alias_line(name: Seq<char>, cmd: Seq<char>) -> Seq<char> {
    seq!['a', 'l', 'i', 'a', 's', ' '] + name + seq!['=', '\''] + cmd + seq!['\'']
}

proof fn lemma_no_group(s: Seq<char>, p: int)
    requires
        0 <= p,
        forall|k: int| 0 <= k < s.len() ==> s[k] != '#',
    ensures
        crate::parser::group_from(s, p) is None,
    decreases s.len() - p,
{
    if p < s.len() {
        lemma_no_group(s, p + 1);
    }
}

proof fn lemma_name_run(s: Seq<char>, name: Seq<char>, j: int)
    requires
        0 <= j <= name.len(),
        6 + name.len() < s.len(),
        forall|k: int| 0 <= k < name.len() ==> alias_name_char(#[trigger] name[k]) && s[6 + k] == name[k],
        s[6 + name.len() as int] == '=',
    ensures
        crate::parser::name_end(s, 6 + j) == 6 + name.len(),
    decreases name.len() - j,
{
    if j < name.len() {
        assert(s[6 + j] == name[j]);
        lemma_name_run(s, name, j + 1);
    }
}

proof fn lemma_closing_quote(s: Seq<char>, j: int)
    requires
        0 <= j <= s.len() - 1,
        s[s.len() - 1] == '\'',
    ensures
        crate::parser::closing_quote_from(s, j) == Some(s.len() - 1),
    decreases s.len() - j,
{
    if j < s.len() - 1 {
        crate::text::lemma_ws_end(s, j + 1);
        if crate::text::ws_end(s, j + 1) == s.len() {
            assert(is_ws(s[s.len() - 1]));
        }
        lemma_closing_quote(s, j + 1);
    }
}

/// A file of one line `alias NAME='CMD'`, where NAME is made of letters,
/// digits, `_` and `-` and CMD is any text without a line break or a `#`,
/// holds exactly one alias: named NAME, running CMD, in the group `Other`,
/// of the kind CMD is classified as.
#[verifier::spinoff_prover]
#[verifier::rlimit(40)]
pub proof fn law_alias_line_is_read(name: Seq<char>, cmd: Seq<char>)
    requires
        name.len() > 0,
        forall|k: int| 0 <= k < name.len() ==> alias_name_char(#[trigger] name[k]),
        cmd.len() > 0,
        forall|k: int| 0 <= k < cmd.len() ==> #[trigger] cmd[k] != '\n' && cmd[k] != '#',
    ensures
        crate::parser::parse_aliases_spec(alias_line(name, cmd)) == seq![
            AliasV { name, command: cmd, kind: crate::parser::classify_spec(cmd), group: "Other"@ },
        ],
{
    let l = alias_line(name, cmd);
    let nl = name.len() as int;
    let len = l.len() as int;
    assert(len == 9 + nl + cmd.len());
    assert forall|k: int| 0 <= k < nl implies l[6 + k] == name[k] by {}
    assert forall|k: int| 0 <= k < cmd.len() implies l[8 + nl + k] == cmd[k] by {}
    assert(l[6 + nl] == '=' && l[7 + nl] == '\'' && l[len - 1] == '\'');
    assert forall|k: int| 0 <= k < len implies l[k] != '\n' && l[k] != '#' by {
        if k < 6 {
        } else if k < 6 + nl {
            assert(l[k] == name[k - 6]);
            assert(alias_name_char(name[k - 6]));
        } else if k < 8 + nl {
        } else if k < len - 1 {
            assert(l[k] == cmd[k - 8 - nl]);
        }
    }
    // one line
    crate::text::lemma_first_char_from(l, '\n', 0);
    assert(lines_of(l) == seq![l]);
    // already trimmed
    assert(!is_ws(l[0]));
    assert(trim_start(l) == l);
    assert(l.last() == l[len - 1]);
    assert(trim_end(l) == l);
    // not a group line, not a comment
    lemma_no_group(l, 0);
    // the alias pattern
    reveal_strlit("alias");
    assert(l.subrange(0, 5) =~= "alias"@);
    assert(crate::text::ws_end(l, 0) == 0);
    assert(is_ws(l[5]));
    assert(!is_ws(l[6])) by {
        assert(l[6] == name[0]);
        assert(alias_name_char(name[0]));
    }
    assert(crate::text::ws_end(l, 6) == 6);
    assert(crate::text::ws_end(l, 5) == 6);
    lemma_name_run(l, name, 0);
    assert(crate::text::ws_end(l, 6 + nl) == 6 + nl);
    assert(crate::text::ws_end(l, 7 + nl) == 7 + nl);
    lemma_closing_quote(l, 9 + nl);
    assert(l.subrange(6, 6 + nl) =~= name);
    assert(l.subrange(8 + nl, len - 1) =~= cmd);
    assert(crate::parser::alias_match(l) == Some((name, cmd)));
    assert(seq![l].drop_first() =~= Seq::<Seq<char>>::empty());
    assert(trim(l) == l);
    assert(seq![l][0] == l);
    assert(crate::parser::parse_lines(Seq::<Seq<char>>::empty(), "Other"@) == Seq::<AliasV>::empty());
    let a = AliasV { name, command: cmd, kind: crate::parser::classify_spec(cmd), group: "Other"@ };
    assert(crate::parser::parse_lines(seq![l], "Other"@) == seq![a] + Seq::<AliasV>::empty());
    assert(seq![a] + Seq::<AliasV>::empty() =~= seq![a]);
}

} // verus!
