//! The Terminal tab: a command line with history and AWS CLI completion,
//! and the commands run from it with their output.
use vstd::prelude::*;
use crate::text::{
    chars_of, string_of, slice_vec, trim, trim_chars, trim_end, is_ws, is_space, ws_start_back,
    lemma_trim_end_is_take, last_char, rfind_char, lines_of, split_lines, str_to_string, chars_eq,
    starts_with, matches_at, concat, utf8_len, utf8_width, byte_pos, char_pos, on_boundary,
    byte_offset, char_offset, char_bytes, lemma_byte_pos_step, lemma_byte_pos_mono, lemma_char_pos_of,
    lemma_on_boundary, lemma_byte_pos_prefix, lemma_utf8_len_concat,
};
use crate::json::strs_view;

verus! {

// ─── Completion ─────────────────────────────────────────────────────────────
/// Suggestions for the word being typed.
#[derive(Debug, Clone)]
pub struct CompletionResult {
    pub suggestions: Vec<String>,
    pub _prefix: String,
    /// Where the word being completed starts (a character position).
    pub prefix_start: usize,
}

/// AWS CLI completion of the command line, asked for once typing pauses.
pub struct Completer {
    pub last_queried_input: String,
    /// When the last key was typed (milliseconds on the caller's clock).
    pub last_keystroke: Option<u64>,
    pub debounce_ms: u64,
    pub in_flight: bool,
    pub cached_result: Option<CompletionResult>,
    pub selected_index: usize,
    pub visible: bool,
}

/// The number of suggestions held, if any are.
pub open spec fn suggestion_count(c: Completer) -> Option<nat> {
    match c.cached_result {
        Some(r) => Some(r.suggestions@.len()),
        None => None,
    }
}

/// Whether to ask for completions of `input` at time `now`: it differs from
/// the last input asked about, no query is running, and a key was typed at
/// least `debounce_ms` before.
pub open spec fn query_due(c: Completer, input: Seq<char>, now: u64) -> bool {
    input != c.last_queried_input@ && !c.in_flight && match c.last_keystroke {
        Some(t) => now >= t && now - t >= c.debounce_ms,
        None => false,
    }
}

/// The completer after `notify_keystroke(now)`.
pub open spec fn keystroke_noted(o: Completer, n: Completer, now: u64) -> bool {
    &&& n == (Completer { last_keystroke: Some(now), ..o })
}

/// The completer after `accept_selected(current_input)` returned `r`.
pub open spec fn completion_taken(o: Completer, n: Completer, current_input: &str, r: Option<String>) -> bool {
    &&& match o.cached_result {
        Some(res) if o.selected_index < res.suggestions@.len() => (r matches Some(s)
            && s@ == current_input@.take(char_pos(current_input@, res.prefix_start as int))
            + res.suggestions@[o.selected_index as int]@ + seq![' ']
            && n == (Completer { visible: false, cached_result: None, ..o })),
        _ => r is None && n == o,
    }
}

/// `o` with the next suggestion selected (wrapping to the first).
pub open spec fn next_of(o: Completer) -> Completer {
    Completer {
        selected_index: match suggestion_count(o) {
            Some(n) => if n > 0 {
                ((o.selected_index + 1) % (n as int)) as usize
            } else {
                o.selected_index
            },
            None => o.selected_index,
        },
        ..o
    }
}

/// The completer after `next`.
pub open spec fn completer_next(o: Completer, n: Completer) -> bool {
    n == next_of(o)
}

/// `o` after `k` calls of `next`.
pub open spec fn nexts(o: Completer, k: nat) -> Completer
    decreases k,
{
    if k == 0 {
        o
    } else {
        next_of(nexts(o, (k - 1) as nat))
    }
}

/// The completer after `prev`.
pub open spec fn completer_prev(o: Completer, n: Completer) -> bool {
    &&& n == (Completer {
        selected_index: match suggestion_count(o) {
            Some(n) => if n == 0 {
                o.selected_index
            } else if o.selected_index == 0 {
                (n - 1) as usize
            } else {
                (o.selected_index - 1) as usize
            },
            None => o.selected_index,
        },
        ..o
    })
}

/// The completer after `dismiss`.
pub open spec fn completer_dismissed(o: Completer, n: Completer) -> bool {
    &&& n == (Completer { visible: false, ..o })
}

impl Completer {
    /// Nothing asked yet; a pause of 150 ms starts a query.
    pub fn new() -> (c: Completer)
        ensures
            c.last_queried_input@.len() == 0,
            c.last_keystroke is None,
            c.debounce_ms == 150,
            !c.in_flight,
            c.cached_result is None,
            c.selected_index == 0,
            !c.visible,
    {
        Completer {
            last_queried_input: String::new(),
            last_keystroke: None,
            debounce_ms: 150,
            in_flight: false,
            cached_result: None,
            selected_index: 0,
            visible: false,
        }
    }

    /// Notes that a key was typed at time `now` (milliseconds).
    pub fn notify_keystroke(&mut self, now: u64)
        ensures
            keystroke_noted(*old(self), *final(self), now),
    {
        self.last_keystroke = Some(now);
    }

    /// Whether to ask for completions of `current_input` at time `now`: it
    /// differs from the last input asked about, no query is running, and a
    /// key was typed at least `debounce_ms` before.
    pub fn should_query(&self, current_input: &str, now: u64) -> (r: bool)
        ensures
            r == query_due(*self, current_input@, now),
    {
        if crate::text::str_eq(current_input, self.last_queried_input.as_str()) {
            return false;
        }
        if self.in_flight {
            return false;
        }
        match self.last_keystroke {
            Some(t) => now >= t && now - t >= self.debounce_ms,
            None => false,
        }
    }

    /// Starts a query for `input`: an input of only whitespace clears the
    /// suggestions and asks nothing (`false`); otherwise the query is marked
    /// running for this input (`true`: run `aws_completer` on it).
    pub fn begin_query(&mut self, input: &str) -> (r: bool)
        ensures
            r == (trim(input@).len() > 0),
            !r ==> *final(self) == (Completer { cached_result: None, visible: false, ..*old(self) }),
            r ==> final(self).in_flight && final(self).last_queried_input@ == input@
                && final(self).last_keystroke == old(self).last_keystroke && final(self).debounce_ms
                == old(self).debounce_ms && final(self).selected_index == old(self).selected_index
                && final(self).visible == old(self).visible,
    {
        let t = trim_chars(&chars_of(input));
        if t.len() == 0 {
            self.cached_result = None;
            self.visible = false;
            return false;
        }
        self.in_flight = true;
        self.last_queried_input = str_to_string(input);
        true
    }

    /// Takes the answer of `aws_completer` for `input` (see
    /// `completion_outcome`).
    pub fn finish_query(&mut self, input: &str, success: bool, stdout: &str)
        requires
            utf8_len(input@) <= usize::MAX,
        ensures
            !final(self).in_flight,
            final(self).last_queried_input == old(self).last_queried_input,
            final(self).last_keystroke == old(self).last_keystroke,
            final(self).debounce_ms == old(self).debounce_ms,
            !success ==> final(self).cached_result is None && !final(self).visible
                && final(self).selected_index == old(self).selected_index,
            success ==> (final(self).cached_result matches Some(res) && strs_view(res.suggestions@)
                == nonempty_lines(lines_of(stdout@)) && res.prefix_start == byte_pos(input@, word_start(input@) as int)
                && res._prefix@ == input@.skip(word_start(input@) as int) && final(self).visible == (
                res.suggestions@.len() > 0) && final(self).selected_index == 0),
    {
        self.in_flight = false;
        if !success {
            self.cached_result = None;
            self.visible = false;
            return ;
        }
        let parts = split_lines(&chars_of(stdout));
        let ghost ls = lines_of(stdout@);
        let mut suggestions: Vec<String> = Vec::new();
        let mut i: usize = 0;
        while i < parts.len()
            invariant
                i <= parts@.len() == ls.len(),
                forall|k: int| 0 <= k < parts@.len() ==> (#[trigger] parts@[k])@ == ls[k],
                strs_view(suggestions@) == nonempty_lines(ls.take(i as int)),
            decreases parts@.len() - i,
        {
            assert(ls.take(i + 1).drop_last() =~= ls.take(i as int));
            if parts[i].len() > 0 {
                let ghost before = strs_view(suggestions@);
                let l = string_of(&parts[i]);
                let ghost lv = l@;
                suggestions.push(l);
                assert(strs_view(suggestions@) =~= before.push(lv));
            }
            i = i + 1;
        }
        assert(ls.take(i as int) =~= ls);
        let iv = chars_of(input);
        let n = iv.len();
        assert(iv@.take(n as int) =~= iv@);
        let start = match rfind_char(&iv, ' ', n) {
            Some(k) => k + 1,
            None => 0,
        };
        let prefix = string_of(&slice_vec(&iv, start, n));
        assert(prefix@ =~= input@.skip(start as int));
        let start_byte = byte_offset(&iv, start);
        self.visible = suggestions.len() > 0;
        self.selected_index = 0;
        self.cached_result = Some(
            CompletionResult { suggestions, _prefix: prefix, prefix_start: start_byte },
        );
    }

    /// Takes the selected suggestion: the input up to the completed word,
    /// the suggestion and a space; the suggestions are dropped. `None` where
    /// there is no suggestion to take.
    pub fn accept_selected(&mut self, current_input: &str) -> (r: Option<String>)
        requires
            match old(self).cached_result {
                Some(res) => old(self).selected_index < res.suggestions@.len() ==> on_boundary(
                    current_input@,
                    res.prefix_start as int,
                ),
                None => true,
            },
        ensures
            completion_taken(*old(self), *final(self), current_input, r),
    {
        let (text, ok) = match &self.cached_result {
            Some(res) => {
                if self.selected_index < res.suggestions.len() {
                    let iv = chars_of(current_input);
                    let k = char_offset(&iv, res.prefix_start);
                    proof {
                        lemma_on_boundary(iv@, res.prefix_start as int);
                    }
                    let mut out = slice_vec(&iv, 0, k);
                    let mut sug = chars_of(res.suggestions[self.selected_index].as_str());
                    let ghost a = out@;
                    let ghost b = sug@;
                    out.append(&mut sug);
                    out.push(' ');
                    assert(out@ =~= a + b + seq![' ']);
                    (string_of(&out), true)
                } else {
                    (String::new(), false)
                }
            },
            None => (String::new(), false),
        };
        if !ok {
            return None;
        }
        self.visible = false;
        self.cached_result = None;
        Some(text)
    }

    /// The next suggestion, wrapping around.
    pub fn next(&mut self)
        ensures
            completer_next(*old(self), *final(self)),
    {
        match &self.cached_result {
            Some(res) => {
                let n = res.suggestions.len();
                if n > 0 {
                    self.selected_index = ((self.selected_index as u128 + 1) % (n as u128)) as usize;
                }
            },
            None => {},
        }
    }

    /// The previous suggestion, wrapping around.
    pub fn prev(&mut self)
        ensures
            completer_prev(*old(self), *final(self)),
    {
        match &self.cached_result {
            Some(res) => {
                let n = res.suggestions.len();
                if n > 0 {
                    self.selected_index = if self.selected_index == 0 {
                        n - 1
                    } else {
                        self.selected_index - 1
                    };
                }
            },
            None => {},
        }
    }

    /// Hides the suggestions.
    pub fn dismiss(&mut self)
        ensures
            completer_dismissed(*old(self), *final(self)),
    {
        self.visible = false;
    }
}

/// The lines that are not empty.
pub open spec fn nonempty_lines(ls: Seq<Seq<char>>) -> Seq<Seq<char>>
    decreases ls.len(),
{
    if ls.len() == 0 {
        Seq::empty()
    } else {
        let rest = nonempty_lines(ls.drop_last());
        if ls.last().len() > 0 {
            rest.push(ls.last())
        } else {
            rest
        }
    }
}

/// Where the last word of `s` starts: after its last space, or at 0.
pub open spec fn word_start(s: Seq<char>) -> usize {
    match last_char(s, ' ') {
        Some(i) => (i + 1) as usize,
        None => 0,
    }
}


// ─── Commands and their output ──────────────────────────────────────────────
/// The most output lines kept per command.
pub const MAX_ENTRY_LINES: usize = 1000;

/// The most commands kept in the history.
pub const MAX_HISTORY: usize = 500;

/// A command run from the command line, with its output.
#[derive(Debug, Clone)]
pub struct CommandEntry {
    pub command: String,
    pub output_lines: Vec<String>,
    pub exit_code: Option<i32>,
    pub is_running: bool,
    /// When it was started (milliseconds on the caller's clock).
    pub _started_at: u64,
}

/// The Terminal tab's state. The cursor counts characters of the input.
pub struct TerminalState {
    pub input: String,
    pub cursor_pos: usize,
    pub history: Vec<String>,
    pub history_index: Option<usize>,
    pub saved_input: String,
    pub entries: Vec<CommandEntry>,
    pub scroll_offset: usize,
    pub completer: Completer,
}

/// The lines the output of `entries` takes: each command with a line above
/// and a line below its output.
pub open spec fn output_line_count(entries: Seq<CommandEntry>) -> int
    decreases entries.len(),
{
    if entries.len() == 0 {
        0
    } else {
        output_line_count(entries.drop_last()) + 2 + entries.last().output_lines@.len()
    }
}

/// The value of an `i32` written in decimal with an optional sign
/// (`str::parse::<i32>`), `None` where `s` is not such a number.
pub open spec fn parse_i32(s: Seq<char>) -> Option<i32> {
    let neg = s.len() > 0 && s[0] == '-';
    let body = if s.len() > 0 && (s[0] == '-' || s[0] == '+') {
        s.skip(1)
    } else {
        s
    };
    if body.len() == 0 || !crate::text::all_digits(body) {
        None
    } else {
        let v = if neg {
            -crate::text::digits_value(body)
        } else {
            crate::text::digits_value(body)
        };
        if i32::MIN <= v <= i32::MAX {
            Some(v as i32)
        } else {
            None
        }
    }
}


proof fn lemma_digits_grow(s: Seq<char>, k: int)
    requires
        0 <= k <= s.len(),
        crate::text::all_digits(s),
    ensures
        crate::text::digits_value(s.take(k)) <= crate::text::digits_value(s),
        0 <= crate::text::digits_value(s.take(k)),
    decreases s.len() - k,
{
    if k < s.len() {
        lemma_digits_grow(s, k + 1);
        assert(s.take(k + 1).drop_last() =~= s.take(k));
        assert('0' <= s[k] <= '9');
    } else {
        assert(s.take(k) =~= s);
        lemma_digits_nonneg(s);
    }
}

proof fn lemma_digits_nonneg(s: Seq<char>)
    requires
        crate::text::all_digits(s),
    ensures
        0 <= crate::text::digits_value(s),
    decreases s.len(),
{
    if s.len() > 0 {
        assert(crate::text::all_digits(s.drop_last()));
        lemma_digits_nonneg(s.drop_last());
        assert('0' <= s[s.len() - 1] <= '9');
    }
}

/// Executable `parse_i32`.
pub fn parse_i32_chars(s: &Vec<char>) -> (r: Option<i32>)
    ensures
        r == parse_i32(s@),
{
    let n = s.len();
    let neg = n > 0 && s[0] == '-';
    let start: usize = if n > 0 && (s[0] == '-' || s[0] == '+') {
        1
    } else {
        0
    };
    let ghost body = s@.skip(start as int);
    assert(body == (if s@.len() > 0 && (s@[0] == '-' || s@[0] == '+') {
        s@.skip(1)
    } else {
        s@
    })) by {
        if start == 0 {
            assert(s@.skip(0) =~= s@);
        }
    }
    if start == n {
        return None;
    }
    let mut v: i64 = 0;
    let mut k = start;
    while k < n
        invariant
            start <= k <= n == s@.len(),
            start < n,
            body == s@.skip(start as int),
            start == (if s@.len() > 0 && (s@[0] == '-' || s@[0] == '+') {
                1int
            } else {
                0int
            }),
            neg == (s@.len() > 0 && s@[0] == '-'),
            body == (if s@.len() > 0 && (s@[0] == '-' || s@[0] == '+') {
                s@.skip(1)
            } else {
                s@
            }),
            crate::text::all_digits(body.take(k - start)),
            v == crate::text::digits_value(body.take(k - start)),
            0 <= v <= 2147483648,
        decreases n - k,
    {
        let c = s[k];
        if !('0' <= c && c <= '9') {
            assert(body[k - start] == c);
            assert(!crate::text::all_digits(body));
            return None;
        }
        let d = (c as u32 - '0' as u32) as i64;
        assert(body.take(k + 1 - start).drop_last() =~= body.take(k - start));
        assert(body.take(k + 1 - start).last() == c);
        v = v * 10 + d;
        k = k + 1;
        assert(crate::text::all_digits(body.take(k - start))) by {
            assert forall|t: int| 0 <= t < body.take(k - start).len() implies '0' <= #[trigger] body.take(
                k - start,
            )[t] <= '9' by {
                if t < k - 1 - start {
                    assert(body.take(k - start)[t] == body.take(k - 1 - start)[t]);
                }
            }
        }
        if v > 2147483648 {
            proof {
                if crate::text::all_digits(body) {
                    lemma_digits_grow(body, k - start);
                }
            }
            return None;
        }
    }
    assert(body.take(n - start) =~= body);
    let val: i64 = if neg {
        -v
    } else {
        v
    };
    if val < -2147483648 || val > 2147483647 {
        None
    } else {
        Some(val as i32)
    }
}

impl TerminalState {
    /// The state is well formed: the cursor (a byte offset, as in a `str`)
    /// falls between two characters of the input, the history position lies
    /// within the history, every line's length in bytes fits a `usize`, and
    /// the completer waits 150 ms after a keystroke.
    pub open spec fn wf(&self) -> bool {
        &&& on_boundary(self.input@, self.cursor_pos as int)
        &&& utf8_len(self.input@) <= usize::MAX
        &&& utf8_len(self.saved_input@) <= usize::MAX
        &&& forall|k: int| 0 <= k < self.history@.len() ==> utf8_len((#[trigger] self.history@[k])@) <= usize::MAX
        &&& match self.history_index {
            Some(i) => i < self.history@.len(),
            None => true,
        }
        &&& self.completer.debounce_ms == 150
    }

    /// The character position of the cursor.
    pub open spec fn cursor_char(&self) -> int {
        char_pos(self.input@, self.cursor_pos as int)
    }

    /// An empty command line, no history, no commands, and a fresh completer
    /// (nothing asked yet, a pause of 150 ms starts a query).
    pub open spec fn fresh(&self) -> bool {
        &&& self.input@.len() == 0 && self.cursor_pos == 0
        &&& self.history@.len() == 0 && self.history_index is None && self.saved_input@.len() == 0
        &&& self.entries@.len() == 0 && self.scroll_offset == 0
        &&& self.completer.last_queried_input@.len() == 0
        &&& self.completer.last_keystroke is None
        &&& self.completer.debounce_ms == 150
        &&& !self.completer.in_flight
        &&& self.completer.cached_result is None
        &&& self.completer.selected_index == 0
        &&& !self.completer.visible
    }

    /// A fresh terminal tab (see `fresh`).
    pub fn new() -> (t: TerminalState)
        ensures
            t.wf(),
            t.fresh(),
    {
        proof {
            lemma_char_pos_of(Seq::<char>::empty(), 0);
            assert(Seq::<char>::empty().take(0) =~= Seq::<char>::empty());
        }
        TerminalState {
            input: String::new(),
            cursor_pos: 0,
            history: Vec::new(),
            history_index: None,
            saved_input: String::new(),
            entries: Vec::new(),
            scroll_offset: 0,
            completer: Completer::new(),
        }
    }

    /// Takes a line from the command at `entry_idx`: `__EXIT__:CODE` ends it
    /// with that exit code (none where CODE is no `i32`); other lines are
    /// kept (error lines marked `[stderr] `), at most `MAX_ENTRY_LINES`.
    pub fn on_output(&mut self, entry_idx: usize, line: String, is_stderr: bool)
        ensures
            final(self).input == old(self).input && final(self).cursor_pos == old(self).cursor_pos,
            final(self).history == old(self).history && final(self).history_index
                == old(self).history_index,
            final(self).scroll_offset == old(self).scroll_offset,
            final(self).entries@.len() == old(self).entries@.len(),
            forall|k: int|
                0 <= k < old(self).entries@.len() && k != entry_idx ==> #[trigger] final(self).entries@[k]
                    == old(self).entries@[k],
            entry_idx < old(self).entries@.len() ==> ({
                let e0 = old(self).entries@[entry_idx as int];
                let e1 = final(self).entries@[entry_idx as int];
                if starts_with(line@, "__EXIT__:"@) {
                    e1.exit_code == parse_i32(line@.skip(9)) && !e1.is_running && e1.command
                        == e0.command && e1.output_lines == e0.output_lines
                } else {
                    let shown = if is_stderr {
                        "[stderr] "@ + line@
                    } else {
                        line@
                    };
                    let all = strs_view(e0.output_lines@).push(shown);
                    &&& strs_view(e1.output_lines@) == (if all.len() > MAX_ENTRY_LINES {
                        all.skip(all.len() - MAX_ENTRY_LINES)
                    } else {
                        all
                    })
                    &&& e1.exit_code == e0.exit_code && e1.is_running == e0.is_running
                    &&& e1.command == e0.command
                }
            }),
    {
        if entry_idx >= self.entries.len() {
            return ;
        }
        let lv = chars_of(line.as_str());
        let marker = chars_of("__EXIT__:");
        proof {
            reveal_strlit("__EXIT__:");
        }
        let mut e = self.entries.remove(entry_idx);
        if marker.len() <= lv.len() && matches_at(&lv, &marker, 0) {
            let code = slice_vec(&lv, 9, lv.len());
            assert(code@ =~= line@.skip(9));
            e.exit_code = parse_i32_chars(&code);
            e.is_running = false;
        } else {
            let shown = if is_stderr {
                concat("[stderr] ", line.as_str())
            } else {
                line
            };
            let ghost before = strs_view(e.output_lines@);
            let ghost sv = shown@;
            e.output_lines.push(shown);
            assert(strs_view(e.output_lines@) =~= before.push(sv));
            let n = e.output_lines.len();
            if n > MAX_ENTRY_LINES {
                let kept = e.output_lines.split_off(n - MAX_ENTRY_LINES);
                e.output_lines = kept;
                assert(strs_view(e.output_lines@) =~= before.push(sv).skip(n - MAX_ENTRY_LINES));
            }
        }
        self.entries.insert(entry_idx, e);
    }
}


/// The command line after `insert_char(c, now)`.
pub open spec fn char_inserted(o: TerminalState, n: TerminalState, c: char, now: u64) -> bool {
    &&& n.wf()
    &&& n.input@ == o.input@.take(o.cursor_char()) + seq![c] + o.input@.skip(o.cursor_char())
    &&& n.cursor_pos == o.cursor_pos + utf8_width(c)
    &&& n.completer == (Completer { last_keystroke: Some(now), ..o.completer })
    &&& n.history_index is None
    &&& n.history == o.history && n.saved_input == o.saved_input
    &&& n.entries == o.entries && n.scroll_offset == o.scroll_offset
}

/// The command line after `backspace(now)`.
pub open spec fn backspaced(o: TerminalState, n: TerminalState, now: u64) -> bool {
    &&& n.wf()
    &&& o.cursor_pos == 0 ==> n == o
    &&& o.cursor_pos > 0 ==> {
        &&& n.input@ == o.input@.take(o.cursor_char() - 1) + o.input@.skip(o.cursor_char())
        &&& n.cursor_pos == byte_pos(o.input@, o.cursor_char() - 1)
        &&& n.completer == (Completer { last_keystroke: Some(now), ..o.completer })
        &&& n.history == o.history && n.history_index
            == o.history_index && n.saved_input == o.saved_input
        &&& n.entries == o.entries && n.scroll_offset
            == o.scroll_offset
    }
}

/// The command line after `delete(now)`.
pub open spec fn deleted(o: TerminalState, n: TerminalState, now: u64) -> bool {
    &&& n.wf()
    &&& o.cursor_char() >= o.input@.len() ==> n == o
    &&& o.cursor_char() < o.input@.len() ==> {
        &&& n.input@ == o.input@.take(o.cursor_char()) + o.input@.skip(o.cursor_char() + 1)
        &&& n.cursor_pos == o.cursor_pos
        &&& n.completer == (Completer { last_keystroke: Some(now), ..o.completer })
        &&& n.history == o.history && n.history_index
            == o.history_index && n.saved_input == o.saved_input
        &&& n.entries == o.entries && n.scroll_offset
            == o.scroll_offset
    }
}

/// The command line after `cursor_left`.
pub open spec fn moved_left(o: TerminalState, n: TerminalState) -> bool {
    &&& n == (TerminalState {
        cursor_pos: if o.cursor_pos > 0 {
            byte_pos(o.input@, o.cursor_char() - 1) as usize
        } else {
            0
        },
        ..o
    })
}

/// The command line after `cursor_right`.
pub open spec fn moved_right(o: TerminalState, n: TerminalState) -> bool {
    &&& n == (TerminalState {
        cursor_pos: if o.cursor_char() < o.input@.len() {
            (o.cursor_pos + utf8_width(o.input@[o.cursor_char()])) as usize
        } else {
            o.cursor_pos
        },
        ..o
    })
}

/// The command line after `cursor_home`.
pub open spec fn moved_home(o: TerminalState, n: TerminalState) -> bool {
    &&& n == (TerminalState { cursor_pos: 0, ..o })
}

/// The command line after `cursor_end`.
pub open spec fn moved_end(o: TerminalState, n: TerminalState) -> bool {
    &&& n == (TerminalState { cursor_pos: utf8_len(o.input@) as usize, ..o })
}

/// The command line after `clear_line`.
pub open spec fn line_cleared(o: TerminalState, n: TerminalState) -> bool {
    &&& n.input@.len() == 0
    &&& n == (TerminalState {
        input: n.input,
        cursor_pos: 0,
        completer: Completer { visible: false, ..o.completer },
        ..o
    })
}

/// The command line after `delete_word_backward(now)`.
pub open spec fn word_deleted(o: TerminalState, n: TerminalState, now: u64) -> bool {
    &&& n.wf()
    &&& o.cursor_pos == 0 ==> n == o
    &&& o.cursor_pos > 0 ==> {
        let ws = word_start(trim_end(o.input@.take(o.cursor_char())));
        &&& n.input@ == o.input@.take(ws as int) + o.input@.skip(o.cursor_char())
        &&& n.cursor_pos == byte_pos(o.input@, ws as int)
        &&& n.completer == (Completer { last_keystroke: Some(now), ..o.completer })
        &&& n.history == o.history && n.history_index
            == o.history_index && n.saved_input == o.saved_input
        &&& n.entries == o.entries && n.scroll_offset
            == o.scroll_offset
    }
}

/// The command line after `history_up`.
pub open spec fn history_went_up(o: TerminalState, n: TerminalState) -> bool {
    &&& n.wf()
    &&& o.history@.len() == 0 ==> n == o
    &&& o.history@.len() > 0 ==> {
        let h = o.history@;
        &&& match o.history_index {
            None => n.saved_input == o.input && n.history_index == Some(
                (h.len() - 1) as usize,
            ) && n.input@ == h[h.len() - 1]@,
            Some(i) => n.saved_input == o.saved_input && if i == 0 {
                n.history_index == o.history_index && n.input
                    == o.input
            } else {
                n.history_index == Some((i - 1) as usize) && n.input@ == h[i
                    - 1]@
            },
        }
        &&& n.cursor_pos == utf8_len(n.input@)
        &&& n.completer == (Completer { visible: false, ..o.completer })
        &&& n.history == o.history
        &&& n.entries == o.entries && n.scroll_offset
            == o.scroll_offset
    }
}

/// The command line after `history_down`.
pub open spec fn history_went_down(o: TerminalState, n: TerminalState) -> bool {
    &&& n.wf()
    &&& match o.history_index {
        None => n.input == o.input && n.history_index is None,
        Some(i) => if i + 1 >= o.history@.len() {
            n.history_index is None && n.input@ == o.saved_input@
        } else {
            n.history_index == Some((i + 1) as usize) && n.input@
                == o.history@[i + 1]@
        },
    }
    &&& n.cursor_pos == utf8_len(n.input@)
    &&& n.completer == (Completer { visible: false, ..o.completer })
    &&& n.history == o.history && n.saved_input == o.saved_input
    &&& n.entries == o.entries && n.scroll_offset == o.scroll_offset
}

/// The command line after taking the selected suggestion at time `now`: the
/// input becomes what `accept_selected` gives, the cursor goes to its end
/// and the keystroke is noted; nothing changes where there is no suggestion
/// to take.
pub open spec fn completion_accepted(o: TerminalState, n: TerminalState, now: u64) -> bool {
    match o.completer.cached_result {
        Some(res) if o.completer.selected_index < res.suggestions@.len() => {
            &&& n.input@ == o.input@.take(char_pos(o.input@, res.prefix_start as int))
                + res.suggestions@[o.completer.selected_index as int]@ + seq![' ']
            &&& n.cursor_pos == utf8_len(n.input@)
            &&& n.completer == (Completer {
                visible: false,
                cached_result: None,
                last_keystroke: Some(now),
                ..o.completer
            })
            &&& n == (TerminalState { input: n.input, cursor_pos: n.cursor_pos, completer: n.completer, ..o })
        },
        _ => n == o,
    }
}

/// Taking the selected suggestion is possible: its word starts between two
/// characters of the line (slicing there does not panic), and the line it
/// makes has a length in bytes that fits a `usize`.
pub open spec fn completion_fits(t: TerminalState) -> bool {
    match t.completer.cached_result {
        Some(res) => t.completer.selected_index < res.suggestions@.len() ==> on_boundary(
            t.input@,
            res.prefix_start as int,
        ) && utf8_len(
            t.input@.take(char_pos(t.input@, res.prefix_start as int)) + res.suggestions@[t.completer.selected_index as int]@
                + seq![' '],
        ) <= usize::MAX,
        None => true,
    }
}

/// Writes `completion_fits`.
pub fn completion_fits_exec(t: &TerminalState) -> (r: bool)
    ensures
        r == completion_fits(*t),
{
    match &t.completer.cached_result {
        Some(res) => {
            if t.completer.selected_index >= res.suggestions.len() {
                return true;
            }
            let v = chars_of(t.input.as_str());
            if !crate::text::is_boundary(&v, res.prefix_start) {
                return false;
            }
            let sv = chars_of(res.suggestions[t.completer.selected_index].as_str());
            let sb = crate::text::bytes_of(&sv);
            assert(sv.len() == sv@.len());
            proof {
                lemma_on_boundary(v@, res.prefix_start as int);
                let k = char_pos(v@, res.prefix_start as int);
                lemma_utf8_len_concat(v@.take(k), sv@);
                lemma_utf8_len_concat(v@.take(k) + sv@, seq![' ']);
                crate::text::lemma_utf8_single(' ');
            }
            (res.prefix_start as u128) + sb + 1 <= usize::MAX as u128
        },
        None => true,
    }
}

/// Byte offsets of a spliced text: before the splice they are those of the
/// old text, and its length in bytes is the parts' together.
pub proof fn lemma_splice(s: Seq<char>, i: int, mid: Seq<char>, j: int)
    requires
        0 <= i <= j <= s.len(),
    ensures
        utf8_len(s.take(i) + mid + s.skip(j)) == byte_pos(s, i) + utf8_len(mid) + utf8_len(s.skip(j)),
        utf8_len(s) == byte_pos(s, j) + utf8_len(s.skip(j)),
        forall|k: int| 0 <= k <= i ==> #[trigger] byte_pos(s.take(i) + mid + s.skip(j), k) == byte_pos(s, k),
        byte_pos(s.take(i) + mid + s.skip(j), i + mid.len()) == byte_pos(s, i) + utf8_len(mid),
{
    let t = s.take(i) + mid + s.skip(j);
    lemma_utf8_len_concat(s.take(i), mid);
    lemma_utf8_len_concat(s.take(i) + mid, s.skip(j));
    crate::text::lemma_utf8_take_skip(s, j);
    assert forall|k: int| 0 <= k <= i implies #[trigger] byte_pos(t, k) == byte_pos(s, k) by {
        assert(t.take(k) =~= s.take(k));
    }
    assert(t.take(i + mid.len()) =~= s.take(i) + mid);
}

impl TerminalState {
    /// Types `c` at the cursor (at time `now`).
    pub fn insert_char(&mut self, c: char, now: u64)
        requires
            old(self).wf(),
            utf8_len(old(self).input@) + 4 <= usize::MAX,
        ensures
            char_inserted(*old(self), *final(self), c, now),
    {
        let v = chars_of(self.input.as_str());
        let n = v.len();
        let k = char_offset(&v, self.cursor_pos);
        proof {
            lemma_on_boundary(v@, self.cursor_pos as int);
        }
        let mut out = slice_vec(&v, 0, k);
        out.push(c);
        let mut rest = slice_vec(&v, k, n);
        out.append(&mut rest);
        assert(out@ =~= self.input@.take(k as int) + seq![c] + self.input@.skip(k as int));
        proof {
            lemma_splice(v@, k as int, seq![c], k as int);
            crate::text::lemma_utf8_single(c);
            lemma_char_pos_of(out@, k + 1);
        }
        let w = char_bytes(c);
        self.input = string_of(&out);
        self.cursor_pos = self.cursor_pos + w as usize;
        self.completer.notify_keystroke(now);
        self.history_index = None;
    }

    /// Deletes the character before the cursor (at time `now`).
    pub fn backspace(&mut self, now: u64)
        requires
            old(self).wf(),
        ensures
            backspaced(*old(self), *final(self), now),
    {
        if self.cursor_pos == 0 {
            return ;
        }
        let v = chars_of(self.input.as_str());
        let n = v.len();
        let k = char_offset(&v, self.cursor_pos);
        proof {
            lemma_on_boundary(v@, self.cursor_pos as int);
            assert(v@.take(0) =~= Seq::<char>::empty());
            assert(byte_pos(v@, 0) == 0);
        }
        let mut out = slice_vec(&v, 0, k - 1);
        let mut rest = slice_vec(&v, k, n);
        out.append(&mut rest);
        assert(out@ =~= self.input@.take(k - 1) + Seq::<char>::empty() + self.input@.skip(k as int));
        let b = byte_offset(&v, k - 1);
        proof {
            lemma_splice(v@, k - 1, Seq::<char>::empty(), k as int);
            lemma_byte_pos_mono(v@, k - 1, k as int);
            lemma_char_pos_of(out@, k - 1);
            assert(byte_pos(out@, k - 1) == byte_pos(v@, k - 1));
        }
        self.input = string_of(&out);
        self.cursor_pos = b;
        self.completer.notify_keystroke(now);
    }

    /// Deletes the character at the cursor (at time `now`).
    pub fn delete(&mut self, now: u64)
        requires
            old(self).wf(),
        ensures
            deleted(*old(self), *final(self), now),
    {
        let v = chars_of(self.input.as_str());
        let n = v.len();
        let k = char_offset(&v, self.cursor_pos);
        proof {
            lemma_on_boundary(v@, self.cursor_pos as int);
        }
        if k >= n {
            return ;
        }
        let mut out = slice_vec(&v, 0, k);
        let mut rest = slice_vec(&v, k + 1, n);
        out.append(&mut rest);
        assert(out@ =~= self.input@.take(k as int) + Seq::<char>::empty() + self.input@.skip(k + 1));
        proof {
            lemma_splice(v@, k as int, Seq::<char>::empty(), k + 1);
            lemma_byte_pos_mono(v@, k as int, k + 1);
            lemma_char_pos_of(out@, k as int);
            assert(byte_pos(out@, k as int) == byte_pos(v@, k as int));
        }
        self.input = string_of(&out);
        self.completer.notify_keystroke(now);
    }

    /// Moves the cursor one character left.
    pub fn cursor_left(&mut self)
        requires
            old(self).wf(),
        ensures
            final(self).wf(),
            moved_left(*old(self), *final(self)),
    {
        if self.cursor_pos > 0 {
            let v = chars_of(self.input.as_str());
            let k = char_offset(&v, self.cursor_pos);
            proof {
                lemma_on_boundary(v@, self.cursor_pos as int);
                assert(v@.take(0) =~= Seq::<char>::empty());
                assert(byte_pos(v@, 0) == 0);
                lemma_char_pos_of(v@, k - 1);
            }
            self.cursor_pos = byte_offset(&v, k - 1);
        }
    }

    /// Moves the cursor one character right.
    pub fn cursor_right(&mut self)
        requires
            old(self).wf(),
        ensures
            final(self).wf(),
            moved_right(*old(self), *final(self)),
    {
        let v = chars_of(self.input.as_str());
        let k = char_offset(&v, self.cursor_pos);
        proof {
            lemma_on_boundary(v@, self.cursor_pos as int);
        }
        if k < v.len() {
            proof {
                lemma_byte_pos_step(v@, k as int);
                lemma_byte_pos_mono(v@, k + 1, v@.len() as int);
                lemma_char_pos_of(v@, k + 1);
            }
            self.cursor_pos = self.cursor_pos + char_bytes(v[k]) as usize;
        }
    }

    /// Moves the cursor to the start of the line.
    pub fn cursor_home(&mut self)
        requires
            old(self).wf(),
        ensures
            final(self).wf(),
            moved_home(*old(self), *final(self)),
    {
        proof {
            assert(self.input@.take(0) =~= Seq::<char>::empty());
            lemma_char_pos_of(self.input@, 0);
        }
        self.cursor_pos = 0;
    }

    /// Moves the cursor to the end of the line.
    pub fn cursor_end(&mut self)
        requires
            old(self).wf(),
        ensures
            final(self).wf(),
            moved_end(*old(self), *final(self)),
    {
        let v = chars_of(self.input.as_str());
        proof {
            lemma_byte_pos_mono(v@, v@.len() as int, v@.len() as int);
            lemma_char_pos_of(v@, v@.len() as int);
        }
        self.cursor_pos = byte_offset(&v, v.len());
    }

    /// Takes the selected suggestion at time `now` (see
    /// `completion_accepted`).
    pub fn accept_completion(&mut self, now: u64)
        requires
            old(self).wf(),
            completion_fits(*old(self)),
        ensures
            final(self).wf(),
            completion_accepted(*old(self), *final(self), now),
    {
        match self.completer.accept_selected(self.input.as_str()) {
            Some(new_input) => {
                self.input = new_input;
                let v = chars_of(self.input.as_str());
                proof {
                    lemma_byte_pos_mono(v@, v@.len() as int, v@.len() as int);
                    lemma_char_pos_of(v@, v@.len() as int);
                }
                self.cursor_pos = byte_offset(&v, v.len());
                self.completer.notify_keystroke(now);
            },
            None => {},
        }
    }

    /// Empties the line and hides the suggestions.
    pub fn clear_line(&mut self)
        requires
            old(self).wf(),
        ensures
            final(self).wf(),
            line_cleared(*old(self), *final(self)),
    {
        proof {
            lemma_char_pos_of(Seq::<char>::empty(), 0);
            assert(Seq::<char>::empty().take(0) =~= Seq::<char>::empty());
        }
        self.input = String::new();
        self.cursor_pos = 0;
        self.completer.dismiss();
    }

    /// Deletes the word before the cursor (and the whitespace after it), at
    /// time `now`.
    pub fn delete_word_backward(&mut self, now: u64)
        requires
            old(self).wf(),
        ensures
            word_deleted(*old(self), *final(self), now),
    {
        if self.cursor_pos == 0 {
            return ;
        }
        let v = chars_of(self.input.as_str());
        let n = v.len();
        let cur = char_offset(&v, self.cursor_pos);
        proof {
            lemma_on_boundary(v@, self.cursor_pos as int);
        }
        let mut j = cur;
        while j > 0 && is_space(v[j - 1])
            invariant
                j <= cur <= n == v@.len(),
                ws_start_back(v@, cur as int) == ws_start_back(v@, j as int),
            decreases j,
        {
            j = j - 1;
        }
        proof {
            lemma_trim_end_is_take(v@, cur as int);
        }
        let ghost trimmed = trim_end(v@.take(cur as int));
        assert(trimmed =~= v@.take(j as int)) by {
            assert(v@.take(ws_start_back(v@, cur as int)) =~= v@.take(j as int));
        }
        assert(v@.take(j as int) =~= v@.take(j as int).take(j as int));
        let ws: usize = match rfind_char(&v, ' ', j) {
            Some(k) => k + 1,
            None => 0,
        };
        assert(ws == word_start(trimmed));
        let mut out = slice_vec(&v, 0, ws);
        let mut rest = slice_vec(&v, cur, n);
        out.append(&mut rest);
        assert(out@ =~= self.input@.take(ws as int) + Seq::<char>::empty() + self.input@.skip(cur as int));
        let b = byte_offset(&v, ws);
        proof {
            lemma_splice(v@, ws as int, Seq::<char>::empty(), cur as int);
            lemma_byte_pos_mono(v@, ws as int, cur as int);
            lemma_char_pos_of(out@, ws as int);
            assert(byte_pos(out@, ws as int) == byte_pos(v@, ws as int));
        }
        self.input = string_of(&out);
        self.cursor_pos = b;
        self.completer.notify_keystroke(now);
    }

    /// Puts the cursor at the end of the line (after the line changed).
    fn cursor_to_end(&mut self)
        requires
            utf8_len(old(self).input@) <= usize::MAX,
        ensures
            *final(self) == (TerminalState { cursor_pos: final(self).cursor_pos, ..*old(self) }),
            final(self).cursor_pos == utf8_len(old(self).input@),
            on_boundary(final(self).input@, final(self).cursor_pos as int),
    {
        let v = chars_of(self.input.as_str());
        proof {
            lemma_byte_pos_mono(v@, v@.len() as int, v@.len() as int);
            lemma_char_pos_of(v@, v@.len() as int);
        }
        self.cursor_pos = byte_offset(&v, v.len());
    }

    /// Recalls the previous command of the history (the line being typed is
    /// kept for `history_down`); the cursor goes to the end, the suggestions
    /// hide.
    pub fn history_up(&mut self)
        requires
            old(self).wf(),
        ensures
            history_went_up(*old(self), *final(self)),
    {
        let n = self.history.len();
        if n == 0 {
            return ;
        }
        match self.history_index {
            None => {
                self.saved_input = self.input.clone();
                self.history_index = Some(n - 1);
                self.input = self.history[n - 1].clone();
            },
            Some(0) => {},
            Some(idx) => {
                self.history_index = Some(idx - 1);
                self.input = self.history[idx - 1].clone();
            },
        }
        self.cursor_to_end();
        self.completer.dismiss();
    }

    /// Goes forward in the history; past its end, the line that was being
    /// typed comes back. The cursor goes to the end, the suggestions hide.
    pub fn history_down(&mut self)
        requires
            old(self).wf(),
        ensures
            history_went_down(*old(self), *final(self)),
    {
        match self.history_index {
            None => {},
            Some(idx) => {
                let n = self.history.len();
                assert(idx < n);
                if idx + 1 >= n {
                    self.history_index = None;
                    self.input = self.saved_input.clone();
                } else {
                    self.history_index = Some(idx + 1);
                    self.input = self.history[idx + 1].clone();
                }
            },
        }
        self.cursor_to_end();
        self.completer.dismiss();
    }
}


/// The history after running `cmd`: it is added unless it repeats the last
/// entry, and only the last `MAX_HISTORY` entries are kept.
pub open spec fn history_after(h: Seq<Seq<char>>, cmd: Seq<char>) -> Seq<Seq<char>> {
    let h1 = if h.len() > 0 && h.last() == cmd {
        h
    } else {
        h.push(cmd)
    };
    if h1.len() > MAX_HISTORY {
        h1.skip(h1.len() - MAX_HISTORY)
    } else {
        h1
    }
}

/// The state after `execute(now)` returned `r`.
pub open spec fn executed(o: TerminalState, n: TerminalState, now: u64, r: Option<String>) -> bool {
    &&& n.wf()
    &&& trim(o.input@).len() == 0 ==> r is None && n == o
    &&& trim(o.input@).len() > 0 ==> {
        let cmd = trim(o.input@);
        &&& strs_view(n.history@) == history_after(strs_view(o.history@), cmd)
        &&& n.history_index is None
        &&& n.input@.len() == 0 && n.cursor_pos == 0
        &&& n.completer == (Completer { visible: false, ..o.completer })
        &&& n.scroll_offset == 0
        &&& n.saved_input == o.saved_input
        &&& if cmd == "clear"@ {
            r is None && n.entries@.len() == 0
        } else {
            &&& r matches Some(c) && c@ == cmd
            &&& n.entries@.len() == o.entries@.len() + 1
            &&& n.entries@.drop_last() == o.entries@
            &&& n.entries@.last().command@ == cmd
            &&& n.entries@.last().output_lines@.len() == 0
            &&& n.entries@.last().exit_code is None
            &&& n.entries@.last().is_running
            &&& n.entries@.last()._started_at == now
        }
    }
}

/// The state after `scroll_up(amount)`.
pub open spec fn scrolled_up(o: TerminalState, n: TerminalState, amount: usize) -> bool {
    &&& n == (TerminalState {
        scroll_offset: ({
            let max = if output_line_count(o.entries@) > 0 {
                output_line_count(o.entries@) - 1
            } else {
                0
            };
            if o.scroll_offset + amount < max {
                (o.scroll_offset + amount) as usize
            } else {
                max as usize
            }
        }),
        ..o
    })
}

/// The state after `scroll_down(amount)`.
pub open spec fn scrolled_down(o: TerminalState, n: TerminalState, amount: usize) -> bool {
    &&& n == (TerminalState {
        scroll_offset: if o.scroll_offset >= amount {
            (o.scroll_offset - amount) as usize
        } else {
            0
        },
        ..o
    })
}

impl TerminalState {
    /// Runs the line typed: nothing for a blank line; otherwise it enters
    /// the history, the line empties and scrolls to the bottom; `clear`
    /// empties the output, anything else becomes a running command (started
    /// at `now`) and is returned for the caller to run.
    pub fn execute(&mut self, now: u64) -> (r: Option<String>)
        requires
            old(self).wf(),
        ensures
            executed(*old(self), *final(self), now, r),
    {
        let t = trim_chars(&chars_of(self.input.as_str()));
        if t.len() == 0 {
            return None;
        }
        let cmd = string_of(&t);
        proof {
            crate::text::lemma_utf8_trim(self.input@);
            lemma_char_pos_of(Seq::<char>::empty(), 0);
            assert(Seq::<char>::empty().take(0) =~= Seq::<char>::empty());
        }
        let ghost h0 = strs_view(self.history@);
        let ghost hist0 = self.history@;
        let n = self.history.len();
        let repeat = n > 0 && crate::text::str_eq(self.history[n - 1].as_str(), cmd.as_str());
        if !repeat {
            self.history.push(cmd.clone());
            assert(strs_view(self.history@) =~= h0.push(cmd@));
        }
        let ghost h1 = strs_view(self.history@);
        let m = self.history.len();
        if m > MAX_HISTORY {
            let kept = self.history.split_off(m - MAX_HISTORY);
            self.history = kept;
            assert(strs_view(self.history@) =~= h1.skip(m - MAX_HISTORY));
        }
        assert forall|k: int| 0 <= k < self.history@.len() implies utf8_len((#[trigger] self.history@[k])@)
            <= usize::MAX by {
            if strs_view(self.history@)[k] != cmd@ {
                assert(strs_view(self.history@)[k] == self.history@[k]@);
            }
        }
        self.history_index = None;
        self.input = String::new();
        self.cursor_pos = 0;
        self.completer.dismiss();
        self.scroll_offset = 0;
        let clear = chars_of("clear");
        if chars_eq(&t, &clear) {
            self.entries = Vec::new();
            return None;
        }
        let ghost e0 = self.entries@;
        self.entries.push(
            CommandEntry {
                command: cmd.clone(),
                output_lines: Vec::new(),
                exit_code: None,
                is_running: true,
                _started_at: now,
            },
        );
        assert(self.entries@.drop_last() =~= e0);
        Some(cmd)
    }

    /// The lines the output takes (see `output_line_count`).
    pub fn total_output_lines(&self) -> (r: usize)
        requires
            output_line_count(self.entries@) <= usize::MAX,
        ensures
            r == output_line_count(self.entries@),
    {
        let mut total: usize = 0;
        let mut i: usize = 0;
        while i < self.entries.len()
            invariant
                i <= self.entries@.len(),
                output_line_count(self.entries@) <= usize::MAX,
                total == output_line_count(self.entries@.take(i as int)),
            decreases self.entries@.len() - i,
        {
            assert(self.entries@.take(i + 1).drop_last() =~= self.entries@.take(i as int));
            proof {
                lemma_count_grows(self.entries@, i + 1);
            }
            total = total + 2 + self.entries[i].output_lines.len();
            i = i + 1;
        }
        assert(self.entries@.take(i as int) =~= self.entries@);
        total
    }

    /// Scrolls up (into older output) by `amount`, at most to the first line.
    pub fn scroll_up(&mut self, amount: usize)
        requires
            output_line_count(old(self).entries@) <= usize::MAX,
            old(self).scroll_offset + amount <= usize::MAX,
        ensures
            scrolled_up(*old(self), *final(self), amount),
    {
        let total = self.total_output_lines();
        let max = if total > 0 {
            total - 1
        } else {
            0
        };
        let want = self.scroll_offset + amount;
        self.scroll_offset = if want < max {
            want
        } else {
            max
        };
    }

    /// Scrolls down (towards the newest output) by `amount`.
    pub fn scroll_down(&mut self, amount: usize)
        ensures
            scrolled_down(*old(self), *final(self), amount),
    {
        self.scroll_offset = self.scroll_offset.saturating_sub(amount);
    }
}

/// The lines of the first `k` commands are at most those of all.
pub proof fn lemma_count_grows(e: Seq<CommandEntry>, k: int)
    requires
        0 <= k <= e.len(),
    ensures
        output_line_count(e.take(k)) <= output_line_count(e),
        0 <= output_line_count(e.take(k)),
    decreases e.len() - k,
{
    if k < e.len() {
        lemma_count_grows(e, k + 1);
        assert(e.take(k + 1).drop_last() =~= e.take(k));
        lemma_count_nonneg(e.take(k));
    } else {
        assert(e.take(k) =~= e);
        lemma_count_nonneg(e);
    }
}

proof fn lemma_count_nonneg(e: Seq<CommandEntry>)
    ensures
        0 <= output_line_count(e),
    decreases e.len(),
{
    if e.len() > 0 {
        lemma_count_nonneg(e.drop_last());
    }
}

} // verus!
