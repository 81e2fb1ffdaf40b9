//! Background sessions started from aliases: their states, the output they
//! keep, the SSO liveness checks, and the time arithmetic of token expiry.
use vstd::prelude::*;
use vstd::utf8::{encode_utf8, is_char_boundary};
use vstd::string::StringSliceAdditionalSpecFns;
use crate::text::{
    chars_of, string_of, slice_vec, trim, trim_chars, ends_with, ends_with_chars, occurs_at,
    matches_at, skip_ws, ws_end, decimal, u64_to_dec, str_to_string, concat, push_str, str_eq,
};
use crate::parser::opt_view;
use crate::text::{signed_decimal, i64_to_dec};
use crate::gui::aws::{
    StsCheckResult, StsV, quote_parameters_for_shell, quote_parameters_spec,
    resolve_profile_for_sso_session, profile_for_sso_session, opt_str,
};
use crate::json::{json_parse, jfield_str, parse_json, field_str};

verus! {

// ─── Types ──────────────────────────────────────────────────────────────────
/// The state of a session.
#[derive(Debug, Clone, PartialEq)]
pub enum SessionStatus {
    Stopped,
    Starting,
    Running,
    Connected,
    Expired,
    Error(String),
}

/// What a session runs.
#[derive(Debug, Clone, PartialEq)]
pub enum SessionKind {
    SsoLogin { session_name: String },
    SsmSession,
    Other,
}

// ─── Expiry text ────────────────────────────────────────────────────────────
/// A remaining time as text: `expired`; days and hours (`3d 2h`); hours and
/// minutes (`1h 14m`); or minutes, at least one (`45m`).
pub open spec fn format_expiry_spec(r: nat) -> Seq<char> {
    let days = r / 86400;
    let hours = (r % 86400) / 3600;
    let mins = (r % 3600) / 60;
    if r == 0 {
        "expired"@
    } else if days > 0 {
        decimal(days) + "d "@ + decimal(hours) + "h"@
    } else if hours > 0 {
        decimal(hours) + "h "@ + decimal(mins) + "m"@
    } else {
        decimal(if mins > 1 {
            mins
        } else {
            1
        }) + "m"@
    }
}

/// Formats a remaining number of seconds (see `format_expiry_spec`).
pub fn format_expiry(remaining_secs: u64) -> (r: String)
    ensures
        r@ == format_expiry_spec(remaining_secs as nat),
{
    if remaining_secs == 0 {
        return str_to_string("expired");
    }
    let days = remaining_secs / 86400;
    let hours = (remaining_secs % 86400) / 3600;
    let mins = (remaining_secs % 3600) / 60;
    if days > 0 {
        let mut s = u64_to_dec(days);
        push_str(&mut s, "d ");
        let h = u64_to_dec(hours);
        push_str(&mut s, h.as_str());
        push_str(&mut s, "h");
        s
    } else if hours > 0 {
        let mut s = u64_to_dec(hours);
        push_str(&mut s, "h ");
        let m = u64_to_dec(mins);
        push_str(&mut s, m.as_str());
        push_str(&mut s, "m");
        s
    } else {
        let m = if mins > 1 {
            mins
        } else {
            1
        };
        let mut s = u64_to_dec(m);
        push_str(&mut s, "m");
        s
    }
}

// ─── ISO 8601 timestamps ────────────────────────────────────────────────────
/// A timestamp without its UTC designator (`UTC`, `Z`, `+00:00` or `+0000`,
/// whichever is found first in that order).
pub open spec fn strip_utc(s: Seq<char>) -> Seq<char> {
    if ends_with(s, "UTC"@) {
        s.take(s.len() - 3)
    } else if ends_with(s, "Z"@) {
        s.take(s.len() - 1)
    } else if ends_with(s, "+00:00"@) {
        s.take(s.len() - 6)
    } else if ends_with(s, "+0000"@) {
        s.take(s.len() - 5)
    } else {
        s
    }
}

/// The value of ASCII digits `b` (bytes).
pub open spec fn byte_digits_value(b: Seq<u8>) -> int
    decreases b.len(),
{
    if b.len() == 0 {
        0
    } else {
        byte_digits_value(b.drop_last()) * 10 + (b.last() - 48)
    }
}

/// All bytes of `b` are ASCII digits.
pub open spec fn all_byte_digits(b: Seq<u8>) -> bool {
    forall|k: int| 0 <= k < b.len() ==> 48 <= #[trigger] b[k] <= 57
}

/// `i64::from_str` on a short field (an optional `+` or `-`, then at least
/// one ASCII digit).
pub open spec fn parse_int(b: Seq<u8>) -> Option<int> {
    if b.len() > 0 && (b[0] == 43 || b[0] == 45) {
        let d = b.drop_first();
        if d.len() > 0 && all_byte_digits(d) {
            Some(
                if b[0] == 45 {
                    -byte_digits_value(d)
                } else {
                    byte_digits_value(d)
                },
            )
        } else {
            None
        }
    } else if b.len() > 0 && all_byte_digits(b) {
        Some(byte_digits_value(b))
    } else {
        None
    }
}

/// `s.get(a..e)?.parse::<i64>().ok()` on the bytes of `s`.
pub open spec fn field(b: Seq<u8>, a: int, e: int) -> Option<int> {
    if 0 <= a <= e <= b.len() && is_char_boundary(b, a) && is_char_boundary(b, e) {
        parse_int(b.subrange(a, e))
    } else {
        None
    }
}

/// Integer division rounding toward zero (Rust's `/` on integers).
pub open spec fn tdiv(a: int, b: int) -> int {
    if a >= 0 {
        a / b
    } else {
        -((-a) / b)
    }
}

/// Days from 1970-01-01 to the given civil date (proleptic Gregorian), by
/// Howard Hinnant's `days_from_civil`.
pub open spec fn days_from_civil(year: int, month: int, day: int) -> int {
    let y = if month <= 2 {
        year - 1
    } else {
        year
    };
    let era = tdiv(
        if y >= 0 {
            y
        } else {
            y - 399
        },
        400,
    );
    let yoe = y - era * 400;
    let mp = if month > 2 {
        month - 3
    } else {
        month + 9
    };
    let doy = tdiv(153 * mp + 2, 5) + day - 1;
    let doe = yoe * 365 + tdiv(yoe, 4) - tdiv(yoe, 100) + doy;
    era * 146097 + doe - 719468
}

/// The Unix time of an ISO 8601 UTC timestamp `YYYY-MM-DDTHH:MM:SS`
/// (characters 0..4, 5..7, 8..10, 11..13, 14..16 and 17..19, counted in
/// bytes, after trimming and removing the UTC designator); `None` where a
/// field is missing or not a number, or the date is before 1970.
pub open spec fn iso8601_to_unix(text: Seq<char>) -> Option<u64> {
    let b = encode_utf8(strip_utc(trim(text)));
    if b.len() < 19 {
        None
    } else {
        match (field(b, 0, 4), field(b, 5, 7), field(b, 8, 10), field(b, 11, 13), field(b, 14, 16), field(b, 17, 19)) {
            (Some(year), Some(month), Some(day), Some(hour), Some(min), Some(sec)) => {
                let days = days_from_civil(year, month, day);
                if days < 0 {
                    None
                } else {
                    Some((days * 86400 + hour * 3600 + min * 60 + sec) as u64)
                }
            },
            _ => None,
        }
    }
}

fn parse_field(s: &str, b: &[u8], a: usize, e: usize) -> (r: Option<i64>)
    requires
        b@ == s.spec_bytes(),
        a <= e <= b@.len(),
        e - a <= 4,
    ensures
        match r {
            Some(v) => field(b@, a as int, e as int) == Some(v as int) && -9999 <= v <= 9999,
            None => field(b@, a as int, e as int) is None,
        },
{
    if !s.is_char_boundary(a) || !s.is_char_boundary(e) {
        return None;
    }
    let ghost f = b@.subrange(a as int, e as int);
    let mut i = a;
    let mut neg = false;
    if i < e && (b[i] == 43 || b[i] == 45) {
        neg = b[i] == 45;
        i = i + 1;
    }
    if i == e {
        return None;
    }
    let start = i;
    let mut v: i64 = 0;
    while i < e
        invariant
            a <= start <= i <= e <= b@.len(),
            e - a <= 4,
            start < e,
            all_byte_digits(b@.subrange(start as int, i as int)),
            v == byte_digits_value(b@.subrange(start as int, i as int)),
            0 <= v < pow10(i - start),
            start == a || (start == a + 1 && (b@[a as int] == 43 || b@[a as int] == 45)),
            start == a ==> !(b@[a as int] == 43 || b@[a as int] == 45),
            neg == (start == a + 1 && b@[a as int] == 45),
        decreases e - i,
    {
        proof {
            lemma_pow10_small(i - start);
            lemma_pow10_small(e - start);
        }
        if b[i] < 48 || b[i] > 57 {
            assert(b@.subrange(start as int, e as int)[i - start] == b@[i as int]);
            proof {
                lemma_not_digits(b@, a as int, start as int, e as int, i as int);
            }
            return None;
        }
        assert(b@.subrange(start as int, i + 1).drop_last() =~= b@.subrange(start as int, i as int));
        v = v * 10 + (b[i] - 48) as i64;
        i = i + 1;
        proof {
            lemma_pow10_step(i - start);
        }
    }
    proof {
        lemma_parse_digits(b@, a as int, start as int, e as int);
        lemma_pow10_small(i - start);
    }
    if neg {
        Some(-v)
    } else {
        Some(v)
    }
}

/// `10^n` for small `n`.
pub open spec fn pow10(n: int) -> int
    decreases n,
{
    if n <= 0 {
        1
    } else {
        10 * pow10(n - 1)
    }
}

proof fn lemma_pow10_small(n: int)
    requires
        0 <= n <= 4,
    ensures
        pow10(n) <= 10000,
        n <= 3 ==> pow10(n) <= 1000,
{
    reveal_with_fuel(pow10, 5);
}

proof fn lemma_pow10_step(n: int)
    requires
        n >= 1,
    ensures
        pow10(n) == 10 * pow10(n - 1),
{
}

proof fn lemma_not_digits(b: Seq<u8>, a: int, start: int, e: int, i: int)
    requires
        0 <= a <= start <= i < e <= b.len(),
        start == a || (start == a + 1 && (b[a] == 43 || b[a] == 45)),
        !(48 <= b[i] <= 57),
        start == a ==> !(b[a] == 43 || b[a] == 45),
    ensures
        parse_int(b.subrange(a, e)) is None,
{
    let f = b.subrange(a, e);
    if start == a + 1 {
        assert(f.drop_first()[i - a - 1] == b[i]);
    } else {
        assert(f[i - a] == b[i]);
    }
}

proof fn lemma_parse_digits(b: Seq<u8>, a: int, start: int, e: int)
    requires
        0 <= a <= start < e <= b.len(),
        start == a || (start == a + 1 && (b[a] == 43 || b[a] == 45)),
        start == a ==> !(b[a] == 43 || b[a] == 45),
        all_byte_digits(b.subrange(start, e)),
    ensures
        parse_int(b.subrange(a, e)) == Some(
            if start == a + 1 && b[a] == 45 {
                -byte_digits_value(b.subrange(start, e))
            } else {
                byte_digits_value(b.subrange(start, e))
            },
        ),
{
    let f = b.subrange(a, e);
    if start == a + 1 {
        assert(f.drop_first() =~= b.subrange(start, e));
    } else {
        assert(f =~= b.subrange(start, e));
    }
}

fn tdiv_exec(a: i64, b: i64) -> (r: i64)
    requires
        b > 0,
        -1_000_000_000_000 <= a <= 1_000_000_000_000,
    ensures
        r == tdiv(a as int, b as int),
        -1_000_000_000_000 <= r <= 1_000_000_000_000,
{
    if a >= 0 {
        a / b
    } else {
        -((-a) / b)
    }
}

/// Parses an ISO 8601 UTC timestamp to Unix seconds (see `iso8601_to_unix`).
pub fn parse_iso8601_to_unix(s: &str) -> (r: Option<u64>)
    ensures
        r == iso8601_to_unix(s@),
{
    let t = trim_chars(&chars_of(s));
    let stripped = strip_utc_exec(&t);
    let text = string_of(&stripped);
    let b = text.as_str().as_bytes();
    if b.len() < 19 {
        return None;
    }
    let year = match parse_field(text.as_str(), b, 0, 4) {
        Some(v) => v,
        None => return None,
    };
    let month = match parse_field(text.as_str(), b, 5, 7) {
        Some(v) => v,
        None => return None,
    };
    let day = match parse_field(text.as_str(), b, 8, 10) {
        Some(v) => v,
        None => return None,
    };
    let hour = match parse_field(text.as_str(), b, 11, 13) {
        Some(v) => v,
        None => return None,
    };
    let min = match parse_field(text.as_str(), b, 14, 16) {
        Some(v) => v,
        None => return None,
    };
    let sec = match parse_field(text.as_str(), b, 17, 19) {
        Some(v) => v,
        None => return None,
    };
    let y = if month <= 2 {
        year - 1
    } else {
        year
    };
    let era = tdiv_exec(
        if y >= 0 {
            y
        } else {
            y - 399
        },
        400,
    );
    let yoe = y - era * 400;
    let mp = if month > 2 {
        month - 3
    } else {
        month + 9
    };
    let doy = tdiv_exec(153 * mp + 2, 5) + day - 1;
    let doe = yoe * 365 + tdiv_exec(yoe, 4) - tdiv_exec(yoe, 100) + doy;
    let days = era * 146097 + doe - 719468;
    if days < 0 {
        return None;
    }
    Some(#[verifier::truncate] ((days * 86400 + hour * 3600 + min * 60 + sec) as u64))
}

fn strip_utc_exec(s: &Vec<char>) -> (r: Vec<char>)
    ensures
        r@ == strip_utc(s@),
{
    let utc = chars_of("UTC");
    let z = chars_of("Z");
    let p1 = chars_of("+00:00");
    let p2 = chars_of("+0000");
    proof {
        reveal_strlit("UTC");
        reveal_strlit("Z");
        reveal_strlit("+00:00");
        reveal_strlit("+0000");
    }
    if ends_with_chars(s, &utc) {
        slice_vec(s, 0, s.len() - 3)
    } else if ends_with_chars(s, &z) {
        slice_vec(s, 0, s.len() - 1)
    } else if ends_with_chars(s, &p1) {
        slice_vec(s, 0, s.len() - 6)
    } else if ends_with_chars(s, &p2) {
        slice_vec(s, 0, s.len() - 5)
    } else {
        slice_vec(s, 0, s.len())
    }
}



// ─── Sessions ───────────────────────────────────────────────────────────────
/// The most output lines a session keeps.
pub const MAX_OUTPUT_LINES: usize = 500;

/// A session started from an alias. Whether its process is still held is
/// `has_child`; the process itself is run by the caller.
pub struct Session {
    pub status: SessionStatus,
    pub pid: Option<u32>,
    pub output_lines: Vec<String>,
    pub _kind: SessionKind,
    /// For SSO: the profile its liveness is checked with.
    pub sso_profile: Option<String>,
    pub token_expires_at: Option<String>,
    pub token_remaining_secs: Option<u64>,
    pub has_child: bool,
}

/// The values of a list of strings.
pub open spec fn lines_view(v: Seq<String>) -> Seq<Seq<char>> {
    Seq::new(v.len(), |i: int| v[i]@)
}

/// `lines` with `line` added at the end, keeping only the last
/// `MAX_OUTPUT_LINES`.
pub open spec fn capped_push(lines: Seq<Seq<char>>, line: Seq<char>) -> Seq<Seq<char>> {
    let all = lines.push(line);
    if all.len() > MAX_OUTPUT_LINES {
        all.skip(all.len() - MAX_OUTPUT_LINES)
    } else {
        all
    }
}

impl Session {
    /// A stopped session of kind `kind` with no output.
    pub fn new(kind: SessionKind) -> (s: Session)
        ensures
            s.status == SessionStatus::Stopped,
            s.pid is None,
            s.output_lines@.len() == 0,
            s._kind == kind,
            s.sso_profile is None,
            s.token_expires_at is None,
            s.token_remaining_secs is None,
            !s.has_child,
    {
        Session {
            status: SessionStatus::Stopped,
            pid: None,
            output_lines: Vec::new(),
            _kind: kind,
            sso_profile: None,
            token_expires_at: None,
            token_remaining_secs: None,
            has_child: false,
        }
    }

    /// Adds an output line, dropping the oldest beyond `MAX_OUTPUT_LINES`.
    pub fn push_output(&mut self, line: String)
        ensures
            lines_view(final(self).output_lines@) == capped_push(
                lines_view(old(self).output_lines@),
                line@,
            ),
            final(self).status == old(self).status,
            final(self).pid == old(self).pid,
            final(self)._kind == old(self)._kind,
            final(self).sso_profile == old(self).sso_profile,
            final(self).token_expires_at == old(self).token_expires_at,
            final(self).token_remaining_secs == old(self).token_remaining_secs,
            final(self).has_child == old(self).has_child,
    {
        let ghost before = lines_view(self.output_lines@);
        self.output_lines.push(line);
        assert(lines_view(self.output_lines@) =~= before.push(line@));
        let n = self.output_lines.len();
        if n > MAX_OUTPUT_LINES {
            let drop = n - MAX_OUTPUT_LINES;
            let kept = self.output_lines.split_off(drop);
            self.output_lines = kept;
            assert(lines_view(self.output_lines@) =~= before.push(line@).skip(drop as int));
        }
    }

    /// Adds an output line (with no limit on their number).
    pub fn push_line(&mut self, line: String)
        ensures
            lines_view(final(self).output_lines@) == lines_view(old(self).output_lines@).push(line@),
            final(self).status == old(self).status,
            final(self).pid == old(self).pid,
            final(self)._kind == old(self)._kind,
            final(self).sso_profile == old(self).sso_profile,
            final(self).token_expires_at == old(self).token_expires_at,
            final(self).token_remaining_secs == old(self).token_remaining_secs,
            final(self).has_child == old(self).has_child,
    {
        let ghost before = lines_view(self.output_lines@);
        self.output_lines.push(line);
        assert(lines_view(self.output_lines@) =~= before.push(line@));
    }

    /// Whether the session's status counts as active (starting, running or
    /// connected).
    pub fn is_active(&self) -> (r: bool)
        ensures
            r == (self.status == SessionStatus::Starting || self.status == SessionStatus::Running
                || self.status == SessionStatus::Connected),
    {
        match self.status {
            SessionStatus::Starting | SessionStatus::Running | SessionStatus::Connected => true,
            _ => false,
        }
    }
}

/// The sessions by alias name.
pub struct SessionManager {
    pub sessions: Vec<(String, Session)>,
}

/// Position of the session named `name`.
pub open spec fn session_index(s: Seq<(String, Session)>, name: Seq<char>) -> Option<int>
    decreases s.len(),
{
    if s.len() == 0 {
        None
    } else if s.last().0@ == name {
        Some(s.len() - 1)
    } else {
        session_index(s.drop_last(), name)
    }
}

pub proof fn lemma_session_index(s: Seq<(String, Session)>, name: Seq<char>)
    ensures
        match session_index(s, name) {
            Some(i) => 0 <= i < s.len() && s[i].0@ == name,
            None => forall|j: int| 0 <= j < s.len() ==> s[j].0@ != name,
        },
    decreases s.len(),
{
    if s.len() > 0 && s.last().0@ != name {
        lemma_session_index(s.drop_last(), name);
        assert forall|j: int| 0 <= j < s.len() - 1 implies s[j] == s.drop_last()[j] by {}
    }
}

proof fn lemma_same_keys(s: Seq<(String, Session)>, t: Seq<(String, Session)>, name: Seq<char>)
    requires
        s.len() == t.len(),
        forall|j: int| 0 <= j < s.len() ==> (#[trigger] s[j]).0@ == t[j].0@,
    ensures
        session_index(s, name) == session_index(t, name),
    decreases s.len(),
{
    if s.len() > 0 {
        lemma_same_keys(s.drop_last(), t.drop_last(), name);
    }
}

/// The session named `name` in a list of named sessions.
pub open spec fn session_in(s: Seq<(String, Session)>, name: Seq<char>) -> Option<Session> {
    match session_index(s, name) {
        Some(i) => Some(s[i].1),
        None => None,
    }
}

/// The session named `name`, if there is one.
pub open spec fn session_of(m: SessionManager, name: Seq<char>) -> Option<Session> {
    session_in(m.sessions@, name)
}

/// Replacing the session at `i` by one of the same name changes no other
/// name's session.
proof fn lemma_update_session(s: Seq<(String, Session)>, i: int, p: (String, Session))
    requires
        0 <= i < s.len(),
        p.0@ == s[i].0@,
    ensures
        forall|m: Seq<char>| #[trigger] session_index(s.update(i, p), m) == session_index(s, m),
        forall|m: Seq<char>| m != s[i].0@ ==> #[trigger] session_in(s.update(i, p), m) == session_in(s, m),
        session_index(s, s[i].0@) == Some(i) ==> session_in(s.update(i, p), s[i].0@) == Some(p.1),
{
    let t = s.update(i, p);
    assert forall|j: int| 0 <= j < t.len() implies (#[trigger] t[j]).0@ == s[j].0@ by {}
    assert forall|m: Seq<char>| #[trigger] session_index(t, m) == session_index(s, m) by {
        lemma_same_keys(t, s, m);
    }
    assert forall|m: Seq<char>| m != s[i].0@ implies #[trigger] session_in(t, m) == session_in(s, m) by {
        lemma_same_keys(t, s, m);
        lemma_session_index(s, m);
    }
}

/// The sessions other than the one named `name` are those of `old`.
pub open spec fn others_unchanged(old: SessionManager, new: SessionManager, name: Seq<char>) -> bool {
    forall|n: Seq<char>| n != name ==> #[trigger] session_of(new, n) == session_of(old, n)
}

impl SessionManager {
    /// No sessions.
    pub fn new() -> (m: SessionManager)
        ensures
            m.sessions@.len() == 0,
            forall|n: Seq<char>| #[trigger] session_of(m, n) is None,
    {
        SessionManager { sessions: Vec::new() }
    }

    fn index_of(&self, name: &str) -> (r: Option<usize>)
        ensures
            match r {
                Some(i) => session_index(self.sessions@, name@) == Some(i as int) && i
                    < self.sessions@.len(),
                None => session_index(self.sessions@, name@) is None,
            },
    {
        let mut j = self.sessions.len();
        assert(self.sessions@.take(j as int) =~= self.sessions@);
        while j > 0
            invariant
                j <= self.sessions@.len(),
                session_index(self.sessions@, name@) == session_index(
                    self.sessions@.take(j as int),
                    name@,
                ),
            decreases j,
        {
            assert(self.sessions@.take(j as int).drop_last() =~= self.sessions@.take(j - 1));
            if str_eq(self.sessions[j - 1].0.as_str(), name) {
                return Some(j - 1);
            }
            j = j - 1;
        }
        None
    }

    /// Puts `s` under `name`, replacing a session of that name.
    fn put(&mut self, name: &str, s: Session)
        ensures
            session_of(*final(self), name@) == Some(s),
            others_unchanged(*old(self), *final(self), name@),
    {
        match self.index_of(name) {
            Some(i) => {
                let ghost old_s = self.sessions@;
                let n = str_to_string(name);
                proof {
                    lemma_session_index(old_s, name@);
                    lemma_update_session(old_s, i as int, (n, s));
                }
                self.sessions.set(i, (n, s));
            },
            None => {
                let n = str_to_string(name);
                let ghost old_s = self.sessions@;
                self.sessions.push((n, s));
                assert(self.sessions@.drop_last() =~= old_s);
                proof {
                    assert forall|m: Seq<char>| m != name@ implies #[trigger] session_of(*self, m)
                        == session_of(*old(self), m) by {
                        lemma_session_index(old_s, m);
                    }
                }
            },
        }
    }
}


// ─── Session values ─────────────────────────────────────────────────────────
/// The value of a `SessionStatus`.
pub enum StatusV {
    Stopped,
    Starting,
    Running,
    Connected,
    Expired,
    Error(Seq<char>),
}

/// The value of a `SessionKind`.
pub enum KindV {
    SsoLogin { session_name: Seq<char> },
    SsmSession,
    Other,
}

impl SessionStatus {
    pub open spec fn view(&self) -> StatusV {
        match self {
            SessionStatus::Stopped => StatusV::Stopped,
            SessionStatus::Starting => StatusV::Starting,
            SessionStatus::Running => StatusV::Running,
            SessionStatus::Connected => StatusV::Connected,
            SessionStatus::Expired => StatusV::Expired,
            SessionStatus::Error(e) => StatusV::Error(e@),
        }
    }
}

impl SessionKind {
    pub open spec fn view(&self) -> KindV {
        match self {
            SessionKind::SsoLogin { session_name } => KindV::SsoLogin { session_name: session_name@ },
            SessionKind::SsmSession => KindV::SsmSession,
            SessionKind::Other => KindV::Other,
        }
    }
}

/// The value of a `Session`.
pub struct SessionV {
    pub status: StatusV,
    pub pid: Option<u32>,
    pub output: Seq<Seq<char>>,
    pub kind: KindV,
    pub sso_profile: Option<Seq<char>>,
    pub token_expires_at: Option<Seq<char>>,
    pub token_remaining_secs: Option<u64>,
    pub has_child: bool,
}

impl Session {
    pub open spec fn view(&self) -> SessionV {
        SessionV {
            status: self.status.view(),
            pid: self.pid,
            output: lines_view(self.output_lines@),
            kind: self._kind.view(),
            sso_profile: opt_view(self.sso_profile),
            token_expires_at: opt_view(self.token_expires_at),
            token_remaining_secs: self.token_remaining_secs,
            has_child: self.has_child,
        }
    }
}

/// The value of the session named `name`, if there is one.
pub open spec fn sview(m: SessionManager, name: Seq<char>) -> Option<SessionV> {
    match session_of(m, name) {
        Some(s) => Some(s.view()),
        None => None,
    }
}

/// A status that counts as active.
pub open spec fn active(st: StatusV) -> bool {
    st is Starting || st is Running || st is Connected
}

/// The profile a finished session's liveness is watched with: its profile,
/// for an SSO login.
pub open spec fn watch_profile(s: SessionV) -> Option<Seq<char>> {
    if s.kind is SsoLogin {
        s.sso_profile
    } else {
        None
    }
}

// ─── Starting ───────────────────────────────────────────────────────────────
impl SessionManager {
    /// The check before a session is started, and the shell command it runs:
    /// a session of that name that is starting, running or connected is an
    /// error; otherwise the command with its `--parameters` JSON quoted.
    pub fn start_plan(&self, alias_name: &str, command: &str) -> (r: Result<String, String>)
        ensures
            match sview(*self, alias_name@) {
                Some(s) if active(s.status) => r matches Err(e) && e@ == "Session already active"@,
                _ => r matches Ok(c) && c@ == quote_parameters_spec(command@),
            },
    {
        match self.index_of(alias_name) {
            Some(i) => {
                proof {
                    lemma_session_index(self.sessions@, alias_name@);
                }
                if self.sessions[i].1.is_active() {
                    return Err(str_to_string("Session already active"));
                }
            },
            None => {},
        }
        Ok(quote_parameters_for_shell(command))
    }

    /// Records a session whose process was started with id `pid`: running,
    /// holding its process, its output the line `>>> Starting: COMMAND`. It
    /// replaces a session of that name.
    pub fn record_started(&mut self, alias_name: &str, command: &str, kind: SessionKind, pid: Option<u32>)
        ensures
            sview(*final(self), alias_name@) == Some(
                SessionV {
                    status: StatusV::Running,
                    pid,
                    output: seq![">>> Starting: "@ + command@],
                    kind: kind.view(),
                    sso_profile: None,
                    token_expires_at: None,
                    token_remaining_secs: None,
                    has_child: true,
                },
            ),
            others_unchanged(*old(self), *final(self), alias_name@),
    {
        let mut s = Session::new(kind);
        s.status = SessionStatus::Running;
        s.pid = pid;
        s.has_child = true;
        let ghost k = s._kind;
        s.push_output(concat(">>> Starting: ", command));
        assert(lines_view(s.output_lines@) =~= seq![">>> Starting: "@ + command@]);
        self.put(alias_name, s);
    }

    /// Adds an output line to the session named `alias_name` (nothing where
    /// there is none), keeping its last `MAX_OUTPUT_LINES`.
    pub fn append_output(&mut self, alias_name: &str, line: String)
        ensures
            match sview(*old(self), alias_name@) {
                Some(s) => sview(*final(self), alias_name@) == Some(
                    SessionV { output: capped_push(s.output, line@), ..s },
                ),
                None => *final(self) == *old(self),
            },
            others_unchanged(*old(self), *final(self), alias_name@),
    {
        match self.index_of(alias_name) {
            Some(i) => {
                proof {
                    lemma_session_index(self.sessions@, alias_name@);
                }
                let ghost old_s = self.sessions@;
                let (name, mut s) = self.sessions.remove(i);
                s.push_output(line);
                proof {
                    lemma_update_session(old_s, i as int, (name, s));
                }
                self.sessions.insert(i, (name, s));
                assert(self.sessions@ =~= old_s.update(i as int, (name, s)));
            },
            None => {},
        }
    }
}

/// Whether a session of kind `kind` gets a stdin pipe (SSM sessions do).
pub fn stdin_piped(kind: &SessionKind) -> (r: bool)
    ensures
        r == (kind.view() is SsmSession),
{
    match kind {
        SessionKind::SsmSession => true,
        _ => false,
    }
}

/// The error when a session's process could not be started.
pub fn spawn_error(err: &str) -> (r: String)
    ensures
        r@ == "Failed to spawn: "@ + err@,
{
    concat("Failed to spawn: ", err)
}

/// An error-output line as the session keeps it.
pub fn stderr_line(line: &str) -> (r: String)
    ensures
        r@ == "[stderr] "@ + line@,
{
    concat("[stderr] ", line)
}


// ─── Exit, stop and liveness ────────────────────────────────────────────────
/// The line `>>> Monitoring via: aws sts get-caller-identity --profile P`.
pub open spec fn monitoring_line(p: Seq<char>) -> Seq<char> {
    ">>> Monitoring via: aws sts get-caller-identity --profile "@ + p
}

/// A session after its process ended: it no longer holds a process. A
/// successful SSO login is connected and, where `config` (the text of
/// `~/.aws/config`, if it could be read) names a profile for its SSO session,
/// is watched with that profile; another successful process is stopped; a
/// failed one is in error with its exit code (-1 where it has none). A
/// session that holds no process stays as it is.
pub open spec fn exit_outcome(s: SessionV, success: bool, code: Option<i32>, config: Option<Seq<char>>) -> SessionV {
    if !s.has_child {
        s
    } else {
        let s1 = SessionV { has_child: false, pid: None, ..s };
        if success {
            match s.kind {
                KindV::SsoLogin { session_name } => {
                    let out = s.output.push(
                        ">>> SSO login succeeded (session: "@ + session_name + ")"@,
                    );
                    let profile = match config {
                        Some(c) => profile_for_sso_session(c, session_name),
                        None => None,
                    };
                    match profile {
                        Some(p) => SessionV {
                            status: StatusV::Connected,
                            sso_profile: Some(p),
                            output: out.push(monitoring_line(p)),
                            ..s1
                        },
                        None => SessionV {
                            status: StatusV::Connected,
                            output: out.push(
                                ">>> No profile found for this sso-session in ~/.aws/config"@,
                            ).push(">>> Cannot monitor session liveness without a profile"@),
                            ..s1
                        },
                    }
                },
                _ => SessionV {
                    status: StatusV::Stopped,
                    output: s.output.push(">>> Process exited successfully"@),
                    ..s1
                },
            }
        } else {
            let msg = "Process exited with code: "@ + signed_decimal(
                match code {
                    Some(c) => c as int,
                    None => -1,
                },
            );
            SessionV { status: StatusV::Error(msg), output: s.output.push(">>> "@ + msg), ..s1 }
        }
    }
}

/// What `stop_session` does to a session: a connected SSO session is
/// dismissed; one that holds a process is left for the caller to kill
/// (`true`); any other is marked stopped.
pub open spec fn stop_outcome(s: SessionV) -> (bool, SessionV) {
    if s.status is Connected {
        (
            false,
            SessionV {
                status: StatusV::Stopped,
                token_expires_at: None,
                token_remaining_secs: None,
                output: s.output.push(">>> SSO session dismissed"@),
                ..s
            },
        )
    } else if s.has_child {
        (true, s)
    } else {
        (false, SessionV { status: StatusV::Stopped, token_expires_at: None, token_remaining_secs: None, ..s })
    }
}

/// A connected SSO session after a liveness check (`check`) and the expiry
/// read after it (`expiry`), and whether watching goes on.
pub open spec fn liveness_outcome(s: SessionV, check: StsV, expiry: Option<(Seq<char>, u64)>) -> (bool, SessionV) {
    match check {
        StsV::Valid { account, arn } => {
            let s1 = match expiry {
                Some((e, rem)) if rem > 0 => SessionV {
                    token_expires_at: Some(e),
                    token_remaining_secs: Some(rem),
                    ..s
                },
                _ => SessionV { token_expires_at: Some("account: "@ + account), ..s },
            };
            (
                true,
                SessionV {
                    output: s1.output.push(">>> Session verified — "@ + arn + " ("@ + account + ")"@),
                    ..s1
                },
            )
        },
        StsV::Expired { error } => (
            false,
            SessionV {
                status: StatusV::Expired,
                token_remaining_secs: Some(0),
                output: s.output.push(">>> SSO session expired — "@ + error).push(
                    ">>> Re-login required (press Enter)"@,
                ),
                ..s
            },
        ),
        StsV::Error { error } => (
            true,
            SessionV { output: s.output.push(">>> STS check failed: "@ + error + " (will retry)"@), ..s },
        ),
    }
}

/// The view of an optional text and number pair.
pub open spec fn expiry_view(e: Option<(String, u64)>) -> Option<(Seq<char>, u64)> {
    match e {
        Some((s, n)) => Some((s@, n)),
        None => None,
    }
}

/// The session detected at startup for an SSO alias whose profile passed an
/// identity check, with the expiry read for it (`expiry`).
pub open spec fn existing_sso_session(sso_session_name: Seq<char>, profile: Seq<char>, account: Seq<char>, arn: Seq<char>, expiry: Option<(Seq<char>, u64)>) -> SessionV {
    SessionV {
        status: StatusV::Connected,
        pid: None,
        output: seq![
            ">>> Existing SSO session detected (profile: "@ + profile + ")"@,
            ">>> Session verified — "@ + arn + " ("@ + account + ")"@,
        ],
        kind: KindV::SsoLogin { session_name: sso_session_name },
        sso_profile: Some(profile),
        token_expires_at: Some(
            match expiry {
                Some((e, _)) => e,
                None => "account: "@ + account,
            },
        ),
        token_remaining_secs: match expiry {
            Some((_, rem)) => Some(rem),
            None => None,
        },
        has_child: false,
    }
}

fn clone_opt(o: &Option<String>) -> (r: Option<String>)
    ensures
        opt_view(r) == opt_view(*o),
{
    match o {
        Some(s) => Some(s.clone()),
        None => None,
    }
}

/// A copy of a status.
pub fn clone_status(st: &SessionStatus) -> (r: SessionStatus)
    ensures
        r.view() == st.view(),
{
    match st {
        SessionStatus::Stopped => SessionStatus::Stopped,
        SessionStatus::Starting => SessionStatus::Starting,
        SessionStatus::Running => SessionStatus::Running,
        SessionStatus::Connected => SessionStatus::Connected,
        SessionStatus::Expired => SessionStatus::Expired,
        SessionStatus::Error(e) => SessionStatus::Error(e.clone()),
    }
}

/// The watch profile of a session, copied.
fn watch_of(s: &Session) -> (r: Option<String>)
    ensures
        opt_view(r) == watch_profile(s.view()),
{
    match s._kind {
        SessionKind::SsoLogin { .. } => clone_opt(&s.sso_profile),
        _ => None,
    }
}

impl SessionManager {
    /// Records that the process of the session named `alias_name` ended
    /// (see `exit_outcome`); `config` is the text of `~/.aws/config` where it
    /// could be read. Returns the profile to watch the session's liveness
    /// with, if any. Nothing changes where there is no such session.
    pub fn record_exit(&mut self, alias_name: &str, success: bool, code: Option<i32>, config: Option<&str>) -> (r: Option<String>)
        ensures
            match sview(*old(self), alias_name@) {
                Some(s) => {
                    let s2 = exit_outcome(
                        s,
                        success,
                        code,
                        match config {
                            Some(c) => Some(c@),
                            None => None,
                        },
                    );
                    sview(*final(self), alias_name@) == Some(s2) && opt_view(r) == watch_profile(s2)
                },
                None => r is None && *final(self) == *old(self),
            },
            others_unchanged(*old(self), *final(self), alias_name@),
    {
        let i = match self.index_of(alias_name) {
            Some(i) => i,
            None => return None,
        };
        let ghost old_s = self.sessions@;
        proof {
            lemma_session_index(old_s, alias_name@);
        }
        let (name, mut s) = self.sessions.remove(i);
        if s.has_child {
            s.has_child = false;
            s.pid = None;
            if success {
                match &s._kind {
                    SessionKind::SsoLogin { session_name } => {
                        let sn = session_name.clone();
                        s.status = SessionStatus::Connected;
                        let mut l = concat(">>> SSO login succeeded (session: ", sn.as_str());
                        push_str(&mut l, ")");
                        s.push_line(l);
                        let profile = match config {
                            Some(c) => resolve_profile_for_sso_session(c, sn.as_str()),
                            None => None,
                        };
                        match profile {
                            Some(p) => {
                                let line = concat(
                                    ">>> Monitoring via: aws sts get-caller-identity --profile ",
                                    p.as_str(),
                                );
                                s.sso_profile = Some(p);
                                s.push_line(line);
                            },
                            None => {
                                s.push_line(
                                    str_to_string(
                                        ">>> No profile found for this sso-session in ~/.aws/config",
                                    ),
                                );
                                s.push_line(
                                    str_to_string(
                                        ">>> Cannot monitor session liveness without a profile",
                                    ),
                                );
                            },
                        }
                    },
                    _ => {
                        s.status = SessionStatus::Stopped;
                        s.push_line(str_to_string(">>> Process exited successfully"));
                    },
                }
            } else {
                let c: i64 = match code {
                    Some(c) => c as i64,
                    None => -1,
                };
                let msg = concat("Process exited with code: ", i64_to_dec(c).as_str());
                let line = concat(">>> ", msg.as_str());
                s.status = SessionStatus::Error(msg);
                s.push_line(line);
            }
        }
        let r = watch_of(&s);
        proof {
            lemma_update_session(old_s, i as int, (name, s));
        }
        self.sessions.insert(i, (name, s));
        assert(self.sessions@ =~= old_s.update(i as int, (name, s)));
        r
    }

    /// Records that watching the process of the session named `alias_name`
    /// failed with `err`: the session is in error. Returns the profile to
    /// watch its liveness with, if any.
    pub fn record_monitor_error(&mut self, alias_name: &str, err: &str) -> (r: Option<String>)
        ensures
            match sview(*old(self), alias_name@) {
                Some(s) => {
                    let s2 = SessionV { status: StatusV::Error("Monitor error: "@ + err@), ..s };
                    sview(*final(self), alias_name@) == Some(s2) && opt_view(r) == watch_profile(s2)
                },
                None => r is None && *final(self) == *old(self),
            },
            others_unchanged(*old(self), *final(self), alias_name@),
    {
        let i = match self.index_of(alias_name) {
            Some(i) => i,
            None => return None,
        };
        let ghost old_s = self.sessions@;
        proof {
            lemma_session_index(old_s, alias_name@);
        }
        let (name, mut s) = self.sessions.remove(i);
        s.status = SessionStatus::Error(concat("Monitor error: ", err));
        let r = watch_of(&s);
        proof {
            lemma_update_session(old_s, i as int, (name, s));
        }
        self.sessions.insert(i, (name, s));
        assert(self.sessions@ =~= old_s.update(i as int, (name, s)));
        r
    }

    /// Stops the session named `alias_name` (see `stop_outcome`): `Ok(true)`
    /// asks the caller to kill its process and then call `record_killed`;
    /// an unknown name is an error.
    pub fn stop_session(&mut self, alias_name: &str) -> (r: Result<bool, String>)
        ensures
            match sview(*old(self), alias_name@) {
                Some(s) => r == Ok::<bool, String>(stop_outcome(s).0) && sview(*final(self), alias_name@)
                    == Some(stop_outcome(s).1),
                None => r matches Err(e) && e@ == "Session not found"@ && *final(self) == *old(self),
            },
            others_unchanged(*old(self), *final(self), alias_name@),
    {
        let i = match self.index_of(alias_name) {
            Some(i) => i,
            None => return Err(str_to_string("Session not found")),
        };
        let ghost old_s = self.sessions@;
        proof {
            lemma_session_index(old_s, alias_name@);
        }
        let (name, mut s) = self.sessions.remove(i);
        let kill = match s.status {
            SessionStatus::Connected => {
                s.status = SessionStatus::Stopped;
                s.token_expires_at = None;
                s.token_remaining_secs = None;
                s.push_line(str_to_string(">>> SSO session dismissed"));
                false
            },
            _ => {
                if s.has_child {
                    true
                } else {
                    s.status = SessionStatus::Stopped;
                    s.token_expires_at = None;
                    s.token_remaining_secs = None;
                    false
                }
            },
        };
        proof {
            lemma_update_session(old_s, i as int, (name, s));
        }
        self.sessions.insert(i, (name, s));
        assert(self.sessions@ =~= old_s.update(i as int, (name, s)));
        Ok(kill)
    }

    /// Records that the process of the session named `alias_name` was killed
    /// on request: stopped, holding no process.
    pub fn record_killed(&mut self, alias_name: &str)
        ensures
            match sview(*old(self), alias_name@) {
                Some(s) => sview(*final(self), alias_name@) == Some(
                    SessionV {
                        status: StatusV::Stopped,
                        output: s.output.push(">>> Session stopped by user"@),
                        has_child: false,
                        pid: None,
                        ..s
                    },
                ),
                None => *final(self) == *old(self),
            },
            others_unchanged(*old(self), *final(self), alias_name@),
    {
        let i = match self.index_of(alias_name) {
            Some(i) => i,
            None => return ,
        };
        let ghost old_s = self.sessions@;
        proof {
            lemma_session_index(old_s, alias_name@);
        }
        let (name, mut s) = self.sessions.remove(i);
        s.status = SessionStatus::Stopped;
        s.push_line(str_to_string(">>> Session stopped by user"));
        s.has_child = false;
        s.pid = None;
        proof {
            lemma_update_session(old_s, i as int, (name, s));
        }
        self.sessions.insert(i, (name, s));
        assert(self.sessions@ =~= old_s.update(i as int, (name, s)));
    }

    /// Checks the liveness of the SSO session named `alias_name` (see
    /// `liveness_outcome`); returns whether watching goes on. A session that
    /// is missing or not connected ends the watching and stays as it is.
    pub fn liveness_check(&mut self, alias_name: &str, check: StsCheckResult, expiry: Option<(String, u64)>) -> (r: bool)
        ensures
            match sview(*old(self), alias_name@) {
                Some(s) if s.status is Connected => {
                    let o = liveness_outcome(s, check.view(), expiry_view(expiry));
                    r == o.0 && sview(*final(self), alias_name@) == Some(o.1)
                },
                _ => !r && *final(self) == *old(self),
            },
            others_unchanged(*old(self), *final(self), alias_name@),
    {
        let i = match self.index_of(alias_name) {
            Some(i) => i,
            None => return false,
        };
        let ghost old_s = self.sessions@;
        proof {
            lemma_session_index(old_s, alias_name@);
        }
        match self.sessions[i].1.status {
            SessionStatus::Connected => {},
            _ => return false,
        }
        let (name, mut s) = self.sessions.remove(i);
        let go = match check {
            StsCheckResult::Valid { account, arn } => {
                match expiry {
                    Some((e, rem)) if rem > 0 => {
                        s.token_expires_at = Some(e);
                        s.token_remaining_secs = Some(rem);
                    },
                    _ => {
                        s.token_expires_at = Some(concat("account: ", account.as_str()));
                    },
                }
                let mut l = concat(">>> Session verified — ", arn.as_str());
                push_str(&mut l, " (");
                push_str(&mut l, account.as_str());
                push_str(&mut l, ")");
                s.push_line(l);
                true
            },
            StsCheckResult::Expired { error } => {
                s.status = SessionStatus::Expired;
                s.token_remaining_secs = Some(0);
                s.push_line(concat(">>> SSO session expired — ", error.as_str()));
                s.push_line(str_to_string(">>> Re-login required (press Enter)"));
                false
            },
            StsCheckResult::Error { error } => {
                let mut l = concat(">>> STS check failed: ", error.as_str());
                push_str(&mut l, " (will retry)");
                s.push_line(l);
                true
            },
        };
        proof {
            lemma_update_session(old_s, i as int, (name, s));
        }
        self.sessions.insert(i, (name, s));
        assert(self.sessions@ =~= old_s.update(i as int, (name, s)));
        go
    }

    /// Records an SSO session found already signed in at startup: where the
    /// identity check of its profile passed, a connected session (see
    /// `existing_sso_session`) is put under `alias_name` and `true` returned;
    /// otherwise nothing changes.
    pub fn record_existing_sso(&mut self, alias_name: &str, sso_session_name: &str, profile: &str, check: StsCheckResult, expiry: Option<(String, u64)>) -> (r: bool)
        ensures
            match check.view() {
                StsV::Valid { account, arn } => r && sview(*final(self), alias_name@) == Some(
                    existing_sso_session(sso_session_name@, profile@, account, arn, expiry_view(expiry)),
                ),
                _ => !r && *final(self) == *old(self),
            },
            others_unchanged(*old(self), *final(self), alias_name@),
    {
        match check {
            StsCheckResult::Valid { account, arn } => {
                let mut s = Session::new(
                    SessionKind::SsoLogin { session_name: str_to_string(sso_session_name) },
                );
                s.status = SessionStatus::Connected;
                s.sso_profile = Some(str_to_string(profile));
                s.token_expires_at = Some(concat("account: ", account.as_str()));
                let mut l1 = concat(">>> Existing SSO session detected (profile: ", profile);
                push_str(&mut l1, ")");
                s.push_line(l1);
                let mut l2 = concat(">>> Session verified — ", arn.as_str());
                push_str(&mut l2, " (");
                push_str(&mut l2, account.as_str());
                push_str(&mut l2, ")");
                s.push_line(l2);
                match expiry {
                    Some((e, rem)) => {
                        s.token_expires_at = Some(e);
                        s.token_remaining_secs = Some(rem);
                    },
                    None => {},
                }
                assert(lines_view(s.output_lines@) =~= seq![
                    ">>> Existing SSO session detected (profile: "@ + profile@ + ")"@,
                    ">>> Session verified — "@ + arn@ + " ("@ + account@ + ")"@,
                ]);
                self.put(alias_name, s);
                true
            },
            _ => false,
        }
    }
}

/// The error when the process of a session could not be killed.
pub fn kill_error(err: &str) -> (r: String)
    ensures
        r@ == "Failed to kill: "@ + err@,
{
    concat("Failed to kill: ", err)
}


// ─── Reading sessions ───────────────────────────────────────────────────────
impl SessionManager {
    /// The status of the session named `alias_name`; stopped where there is
    /// none.
    pub fn get_status(&self, alias_name: &str) -> (r: SessionStatus)
        ensures
            r.view() == match sview(*self, alias_name@) {
                Some(s) => s.status,
                None => StatusV::Stopped,
            },
    {
        match self.index_of(alias_name) {
            Some(i) => clone_status(&self.sessions[i].1.status),
            None => SessionStatus::Stopped,
        }
    }

    /// The output lines of the session named `alias_name`; none where there
    /// is no such session.
    pub fn get_output(&self, alias_name: &str) -> (r: Vec<String>)
        ensures
            lines_view(r@) == match sview(*self, alias_name@) {
                Some(s) => s.output,
                None => Seq::empty(),
            },
    {
        match self.index_of(alias_name) {
            Some(i) => {
                let lines = &self.sessions[i].1.output_lines;
                let mut r: Vec<String> = Vec::new();
                let mut k: usize = 0;
                while k < lines.len()
                    invariant
                        k <= lines@.len(),
                        r@.len() == k,
                        forall|t: int| 0 <= t < k ==> (#[trigger] r@[t])@ == lines@[t]@,
                    decreases lines@.len() - k,
                {
                    r.push(lines[k].clone());
                    k = k + 1;
                }
                assert(lines_view(r@) =~= lines_view(lines@));
                r
            },
            None => {
                assert(lines_view(Seq::<String>::empty()) =~= Seq::<Seq<char>>::empty());
                Vec::new()
            },
        }
    }

    /// The process id of the session named `alias_name`, if any.
    pub fn get_pid(&self, alias_name: &str) -> (r: Option<u32>)
        ensures
            r == match sview(*self, alias_name@) {
                Some(s) => s.pid,
                None => None,
            },
    {
        match self.index_of(alias_name) {
            Some(i) => self.sessions[i].1.pid,
            None => None,
        }
    }

    /// The SSO profile of the session named `alias_name`, if any.
    pub fn get_sso_profile(&self, alias_name: &str) -> (r: Option<String>)
        ensures
            opt_view(r) == match sview(*self, alias_name@) {
                Some(s) => s.sso_profile,
                None => None,
            },
    {
        match self.index_of(alias_name) {
            Some(i) => clone_opt(&self.sessions[i].1.sso_profile),
            None => None,
        }
    }

    /// The token expiry text and remaining seconds of the session named
    /// `alias_name`.
    pub fn get_token_expiry(&self, alias_name: &str) -> (r: (Option<String>, Option<u64>))
        ensures
            (opt_view(r.0), r.1) == match sview(*self, alias_name@) {
                Some(s) => (s.token_expires_at, s.token_remaining_secs),
                None => (None, None),
            },
    {
        match self.index_of(alias_name) {
            Some(i) => (
                clone_opt(&self.sessions[i].1.token_expires_at),
                self.sessions[i].1.token_remaining_secs,
            ),
            None => (None, None),
        }
    }

    /// The names of all sessions (the ones `stop_all` stops), in the order
    /// they were first started.
    pub fn session_names(&self) -> (r: Vec<String>)
        ensures
            r@.len() == self.sessions@.len(),
            forall|i: int| 0 <= i < r@.len() ==> (#[trigger] r@[i])@ == self.sessions@[i].0@,
    {
        let mut r: Vec<String> = Vec::new();
        let mut k: usize = 0;
        while k < self.sessions.len()
            invariant
                k <= self.sessions@.len(),
                r@.len() == k,
                forall|i: int| 0 <= i < k ==> (#[trigger] r@[i])@ == self.sessions@[i].0@,
            decreases self.sessions@.len() - k,
        {
            r.push(self.sessions[k].0.clone());
            k = k + 1;
        }
        r
    }
}

/// Whether `name` is among the strings of `v`.
pub open spec fn has_name(v: Seq<String>, name: Seq<char>) -> bool {
    exists|j: int| 0 <= j < v.len() && (#[trigger] v[j])@ == name
}

proof fn lemma_has_name_push(v: Seq<String>, x: String)
    ensures
        forall|n: Seq<char>| #[trigger] has_name(v.push(x), n) == (has_name(v, n) || x@ == n),
{
    assert forall|n: Seq<char>| #[trigger] has_name(v.push(x), n) == (has_name(v, n) || x@ == n) by {
        if has_name(v.push(x), n) && x@ != n {
            let j = choose|j: int| 0 <= j < v.len() + 1 && (#[trigger] v.push(x)[j])@ == n;
            assert(v.push(x)[j] == v[j]);
        }
        if has_name(v, n) {
            let j = choose|j: int| 0 <= j < v.len() && (#[trigger] v[j])@ == n;
            assert(v.push(x)[j] == v[j]);
        }
        if x@ == n {
            assert(v.push(x)[v.len() as int] == x);
        }
    }
}

fn contains_name(v: &Vec<String>, name: &str) -> (r: bool)
    ensures
        r == has_name(v@, name@),
{
    let mut k: usize = 0;
    while k < v.len()
        invariant
            k <= v@.len(),
            forall|j: int| 0 <= j < k ==> (#[trigger] v@[j])@ != name@,
        decreases v@.len() - k,
    {
        if str_eq(v[k].as_str(), name) {
            return true;
        }
        k = k + 1;
    }
    false
}

/// What `stop_all` leaves of the session named `name`: what `stop_session`
/// leaves of it.
pub open spec fn stopped_view(m: SessionManager, name: Seq<char>) -> Option<SessionV> {
    match sview(m, name) {
        Some(s) => Some(stop_outcome(s).1),
        None => None,
    }
}

/// Whether `stop_session` asks for the process of the session named `name`
/// to be killed.
pub open spec fn must_kill(m: SessionManager, name: Seq<char>) -> bool {
    match sview(m, name) {
        Some(s) => stop_outcome(s).0,
        None => false,
    }
}

impl SessionManager {
    /// Stops every session, as `stop_session` does each once; returns the
    /// names of the sessions whose processes must be killed (then
    /// `record_killed` each).
    pub fn stop_all(&mut self) -> (kill: Vec<String>)
        ensures
            forall|n: Seq<char>| #[trigger] sview(*final(self), n) == stopped_view(*old(self), n),
            forall|n: Seq<char>| #[trigger] has_name(kill@, n) == must_kill(*old(self), n),
    {
        let names = self.session_names();
        let mut done: Vec<String> = Vec::new();
        let mut kill: Vec<String> = Vec::new();
        let mut i: usize = 0;
        while i < names.len()
            invariant
                i <= names@.len() == old(self).sessions@.len(),
                forall|j: int| 0 <= j < names@.len() ==> (#[trigger] names@[j])@ == old(self).sessions@[j].0@,
                forall|n: Seq<char>| has_name(done@, n) ==> #[trigger] sview(*self, n) == stopped_view(*old(self), n),
                forall|n: Seq<char>| !has_name(done@, n) ==> #[trigger] sview(*self, n) == sview(*old(self), n),
                forall|n: Seq<char>| #[trigger] has_name(kill@, n) == (has_name(done@, n) && must_kill(*old(self), n)),
                forall|j: int| 0 <= j < i ==> has_name(done@, (#[trigger] names@[j])@),
            decreases names@.len() - i,
        {
            let name = names[i].clone();
            if !contains_name(&done, name.as_str()) {
                proof {
                    lemma_session_index(old(self).sessions@, name@);
                    assert(names@[i as int]@ == name@);
                }
                let ghost before = *self;
                let r = self.stop_session(name.as_str());
                proof {
                    lemma_has_name_push(kill@, name);
                    lemma_has_name_push(done@, name);
                }
                match r {
                    Ok(true) => kill.push(name.clone()),
                    _ => {},
                }
                done.push(name);
                proof {
                    assert forall|n: Seq<char>| n != name@ implies #[trigger] sview(*self, n) == sview(before, n) by {
                        assert(session_of(*self, n) == session_of(before, n));
                    }
                }
            }
            i = i + 1;
        }
        proof {
            assert forall|n: Seq<char>| #[trigger] sview(*self, n) == stopped_view(*old(self), n) by {
                lemma_session_index(old(self).sessions@, n);
                if let Some(j) = session_index(old(self).sessions@, n) {
                    assert(has_name(done@, names@[j]@));
                }
            }
            assert forall|n: Seq<char>| #[trigger] has_name(kill@, n) == must_kill(*old(self), n) by {
                lemma_session_index(old(self).sessions@, n);
                if let Some(j) = session_index(old(self).sessions@, n) {
                    assert(has_name(done@, names@[j]@));
                }
            }
        }
        kill
    }
}

// ─── Credential expiry ──────────────────────────────────────────────────────
/// The expiry that `aws configure export-credentials` output gives at Unix
/// time `now`: its `Expiration` timestamp read as Unix time, the seconds from
/// `now` to it (0 once past), and those seconds as text; `None` where the
/// output is not JSON, has no `Expiration` text or that text is no timestamp.
pub open spec fn expiry_from_export(stdout: Seq<char>, now: u64) -> Option<(Seq<char>, u64)> {
    match json_parse(stdout) {
        None => None,
        Some(j) => match jfield_str(j, "Expiration"@) {
            None => None,
            Some(e) => match iso8601_to_unix(e) {
                None => None,
                Some(t) => {
                    let rem: u64 = if t > now {
                        (t - now) as u64
                    } else {
                        0
                    };
                    Some((format_expiry_spec(rem as nat), rem))
                },
            },
        },
    }
}

/// Reads the credential expiry from `aws configure export-credentials`
/// output at Unix time `now` (see `expiry_from_export`).
pub fn credentials_expiry(stdout: &str, now: u64) -> (r: Option<(String, u64)>)
    ensures
        expiry_view(r) == expiry_from_export(stdout@, now),
{
    let j = match parse_json(stdout) {
        Ok(j) => j,
        Err(_) => return None,
    };
    let e = match field_str(&j, "Expiration") {
        Some(e) => e,
        None => return None,
    };
    let t = match parse_iso8601_to_unix(e.as_str()) {
        Some(t) => t,
        None => return None,
    };
    let rem = t.saturating_sub(now);
    Some((format_expiry(rem), rem))
}

} // verus!
