//! The background sessions of the desktop front end: their states, the last
//! lines of their output, and the events that announce them.
use vstd::prelude::*;
use crate::text::{concat, push_str, str_to_string, str_eq};
use crate::json::strs_view;
use crate::parser::opt_view;
use crate::gui::model::{SessionState, SessionStatus};

verus! {

/// The most output lines a session keeps.
pub const OUTPUT_BUFFER_LINES: usize = 500;

/// A session and what it keeps. Its process is held by the caller while
/// `has_child` is set.
pub struct ActiveSession {
    pub status: SessionStatus,
    pub has_child: bool,
    pub output: Vec<String>,
}

/// The sessions by alias, in the order they were started.
pub struct SessionManager {
    pub sessions: Vec<(String, ActiveSession)>,
}

/// The value of a `SessionStatus`.
pub struct StatusV {
    pub alias: Seq<char>,
    pub state: SessionState,
    pub pid: Option<u32>,
    pub started_at: Option<Seq<char>>,
    pub expires_at: Option<Seq<char>>,
}

pub open spec fn status_view(s: SessionStatus) -> StatusV {
    StatusV {
        alias: s.alias@,
        state: s.state,
        pid: s.pid,
        started_at: opt_view(s.started_at),
        expires_at: opt_view(s.expires_at),
    }
}

/// A copy of a status.
pub fn clone_status(s: &SessionStatus) -> (r: SessionStatus)
    ensures
        status_view(r) == status_view(*s),
{
    SessionStatus {
        alias: s.alias.clone(),
        state: s.state,
        pid: s.pid,
        started_at: match &s.started_at {
            Some(t) => Some(t.clone()),
            None => None,
        },
        expires_at: match &s.expires_at {
            Some(t) => Some(t.clone()),
            None => None,
        },
    }
}

/// The name of the event that carries a session's output lines.
pub fn output_event(alias: &str) -> (r: String)
    ensures
        r@ == "session://"@ + alias@ + "/output"@,
{
    let mut r = concat("session://", alias);
    push_str(&mut r, "/output");
    r
}

/// The name of the event that carries a session's status.
pub fn status_event(alias: &str) -> (r: String)
    ensures
        r@ == "session://"@ + alias@ + "/status"@,
{
    let mut r = concat("session://", alias);
    push_str(&mut r, "/status");
    r
}

/// The status of a session that is not running.
pub fn idle_status(alias: &str) -> (r: SessionStatus)
    ensures
        status_view(r) == (StatusV {
            alias: alias@,
            state: SessionState::Idle,
            pid: None,
            started_at: None,
            expires_at: None,
        }),
{
    SessionStatus {
        alias: str_to_string(alias),
        state: SessionState::Idle,
        pid: None,
        started_at: None,
        expires_at: None,
    }
}

/// The error when a session's process could not be started.
pub fn spawn_error(err: &str) -> (r: String)
    ensures
        r@ == "failed to spawn: "@ + err@,
{
    concat("failed to spawn: ", err)
}

/// `lines` with `line` added, the oldest dropped first where
/// `OUTPUT_BUFFER_LINES` are already kept.
pub open spec fn buffer_push(lines: Seq<Seq<char>>, line: Seq<char>) -> Seq<Seq<char>> {
    if lines.len() >= OUTPUT_BUFFER_LINES {
        lines.drop_first().push(line)
    } else {
        lines.push(line)
    }
}

/// The position of the session named `alias`.
pub open spec fn index_in(s: Seq<(String, ActiveSession)>, alias: Seq<char>) -> Option<int>
    decreases s.len(),
{
    if s.len() == 0 {
        None
    } else if s.last().0@ == alias {
        Some(s.len() - 1)
    } else {
        index_in(s.drop_last(), alias)
    }
}

proof fn lemma_index_in(s: Seq<(String, ActiveSession)>, alias: Seq<char>)
    ensures
        match index_in(s, alias) {
            Some(i) => 0 <= i < s.len() && s[i].0@ == alias,
            None => forall|j: int| 0 <= j < s.len() ==> s[j].0@ != alias,
        },
    decreases s.len(),
{
    if s.len() > 0 && s.last().0@ != alias {
        lemma_index_in(s.drop_last(), alias);
        assert forall|j: int| 0 <= j < s.len() - 1 implies s[j] == s.drop_last()[j] by {}
    }
}

proof fn lemma_same_names(s: Seq<(String, ActiveSession)>, t: Seq<(String, ActiveSession)>, alias: Seq<char>)
    requires
        s.len() == t.len(),
        forall|j: int| 0 <= j < s.len() ==> (#[trigger] s[j]).0@ == t[j].0@,
    ensures
        index_in(s, alias) == index_in(t, alias),
    decreases s.len(),
{
    if s.len() > 0 {
        lemma_same_names(s.drop_last(), t.drop_last(), alias);
    }
}

/// The session named `alias` in a list of named sessions.
pub open spec fn session_in(s: Seq<(String, ActiveSession)>, alias: Seq<char>) -> Option<ActiveSession> {
    match index_in(s, alias) {
        Some(i) => Some(s[i].1),
        None => None,
    }
}

/// The session named `alias`, if any.
pub open spec fn session_named(m: SessionManager, alias: Seq<char>) -> Option<ActiveSession> {
    session_in(m.sessions@, alias)
}

/// No two sessions have the same name.
pub open spec fn distinct_names(s: Seq<(String, ActiveSession)>) -> bool {
    forall|a: int, b: int| 0 <= a < b < s.len() ==> (#[trigger] s[a]).0@ != (#[trigger] s[b]).0@
}

/// Removing the session at `i` (named `alias`) changes no other name's
/// session.
proof fn lemma_remove_other(s: Seq<(String, ActiveSession)>, i: int, alias: Seq<char>, n: Seq<char>)
    requires
        index_in(s, alias) == Some(i),
        n != alias,
    ensures
        session_in(s.remove(i), n) == session_in(s, n),
    decreases s.len(),
{
    lemma_index_in(s, alias);
    let t = s.remove(i);
    if i == s.len() - 1 {
        assert(t =~= s.drop_last());
        lemma_session_in_drop(s, n);
    } else {
        assert(t.last() == s.last());
        if s.last().0@ != n {
            assert(t.drop_last() =~= s.drop_last().remove(i));
            lemma_remove_other(s.drop_last(), i, alias, n);
            lemma_session_in_drop(s, n);
            lemma_session_in_drop(t, n);
        } else {
            assert(t[t.len() - 1] == s[s.len() - 1]);
        }
    }
}

proof fn lemma_session_in_drop(s: Seq<(String, ActiveSession)>, n: Seq<char>)
    requires
        s.len() > 0,
        s.last().0@ != n,
    ensures
        session_in(s, n) == session_in(s.drop_last(), n),
{
    lemma_index_in(s.drop_last(), n);
    match index_in(s.drop_last(), n) {
        Some(k) => {
            assert(s[k] == s.drop_last()[k]);
        },
        None => {},
    }
}

/// Every session but the one named `alias` is as in `old`.
pub open spec fn others_kept(old: SessionManager, new: SessionManager, alias: Seq<char>) -> bool {
    forall|n: Seq<char>| n != alias ==> #[trigger] session_named(new, n) == session_named(old, n)
}

proof fn lemma_replace(s: Seq<(String, ActiveSession)>, i: int, p: (String, ActiveSession))
    requires
        0 <= i < s.len(),
        p.0@ == s[i].0@,
        index_in(s, s[i].0@) == Some(i),
    ensures
        index_in(s.update(i, p), s[i].0@) == Some(i),
        forall|n: Seq<char>|
            n != s[i].0@ ==> #[trigger] index_in(s.update(i, p), n) == index_in(s, n),
        forall|n: Seq<char>|
            n != s[i].0@ ==> match #[trigger] index_in(s, n) {
                Some(k) => k != i,
                None => true,
            },
        forall|n: Seq<char>| n != s[i].0@ ==> #[trigger] session_in(s.update(i, p), n) == session_in(s, n),
        session_in(s.update(i, p), s[i].0@) == Some(p.1),
{
    let t = s.update(i, p);
    assert forall|j: int| 0 <= j < t.len() implies (#[trigger] t[j]).0@ == s[j].0@ by {}
    lemma_same_names(t, s, s[i].0@);
    assert forall|n: Seq<char>| n != s[i].0@ implies #[trigger] index_in(t, n) == index_in(s, n) by {
        lemma_same_names(t, s, n);
    }
    assert forall|n: Seq<char>| n != s[i].0@ implies match #[trigger] index_in(s, n) {
        Some(k) => k != i,
        None => true,
    } by {
        lemma_index_in(s, n);
    }
    assert forall|n: Seq<char>| n != s[i].0@ implies #[trigger] session_in(t, n) == session_in(s, n) by {
        lemma_same_names(t, s, n);
        lemma_index_in(s, n);
    }
}

impl SessionManager {
    /// No sessions.
    pub fn new() -> (m: SessionManager)
        ensures
            m.sessions@.len() == 0,
            distinct_names(m.sessions@),
    {
        SessionManager { sessions: Vec::new() }
    }

    fn find(&self, alias: &str) -> (r: Option<usize>)
        ensures
            match r {
                Some(i) => index_in(self.sessions@, alias@) == Some(i as int) && i < self.sessions@.len()
                    && self.sessions@[i as int].0@ == alias@,
                None => index_in(self.sessions@, alias@) is None,
            },
    {
        proof {
            lemma_index_in(self.sessions@, alias@);
        }
        let mut j = self.sessions.len();
        assert(self.sessions@.take(j as int) =~= self.sessions@);
        while j > 0
            invariant
                j <= self.sessions@.len(),
                index_in(self.sessions@, alias@) == index_in(self.sessions@.take(j as int), alias@),
            decreases j,
        {
            assert(self.sessions@.take(j as int).drop_last() =~= self.sessions@.take(j - 1));
            if str_eq(self.sessions[j - 1].0.as_str(), alias) {
                return Some(j - 1);
            }
            j = j - 1;
        }
        None
    }

    /// The statuses of all sessions.
    pub fn snapshot_statuses(&self) -> (r: Vec<SessionStatus>)
        ensures
            r@.len() == self.sessions@.len(),
            forall|i: int|
                0 <= i < r@.len() ==> status_view(#[trigger] r@[i]) == status_view(self.sessions@[i].1.status),
    {
        let mut r: Vec<SessionStatus> = Vec::new();
        let mut i: usize = 0;
        while i < self.sessions.len()
            invariant
                i <= self.sessions@.len(),
                r@.len() == i,
                forall|k: int|
                    0 <= k < i ==> status_view(#[trigger] r@[k]) == status_view(self.sessions@[k].1.status),
            decreases self.sessions@.len() - i,
        {
            r.push(clone_status(&self.sessions[i].1.status));
            i = i + 1;
        }
        r
    }

    /// The output lines kept for `alias`; none where there is no session.
    pub fn output_lines(&self, alias: &str) -> (r: Vec<String>)
        ensures
            strs_view(r@) == match session_named(*self, alias@) {
                Some(s) => strs_view(s.output@),
                None => Seq::empty(),
            },
    {
        match self.find(alias) {
            Some(i) => {
                let out = &self.sessions[i].1.output;
                let mut r: Vec<String> = Vec::new();
                let mut k: usize = 0;
                while k < out.len()
                    invariant
                        k <= out@.len(),
                        r@.len() == k,
                        forall|t: int| 0 <= t < k ==> (#[trigger] r@[t])@ == out@[t]@,
                    decreases out@.len() - k,
                {
                    r.push(out[k].clone());
                    k = k + 1;
                }
                assert(strs_view(r@) =~= strs_view(out@));
                r
            },
            None => {
                assert(strs_view(Seq::<String>::empty()) =~= Seq::<Seq<char>>::empty());
                Vec::new()
            },
        }
    }

    /// The check before a session is started: a starting or active session
    /// of that name is answered with its status instead.
    pub fn start_check(&self, alias: &str) -> (r: Option<SessionStatus>)
        ensures
            match session_named(*self, alias@) {
                Some(s) if s.status.state == SessionState::Active || s.status.state
                    == SessionState::Starting => r matches Some(st) && status_view(st) == status_view(
                    s.status,
                ),
                _ => r is None,
            },
    {
        match self.find(alias) {
            Some(i) => {
                let st = &self.sessions[i].1.status;
                if st.state == SessionState::Active || st.state == SessionState::Starting {
                    Some(clone_status(st))
                } else {
                    None
                }
            },
            None => None,
        }
    }

    /// Records a started session: active, with its process id and start
    /// time, holding its process, no output yet; it replaces a session of
    /// that name. Returns its status.
    pub fn record_started(&mut self, alias: &str, pid: Option<u32>, started_at: String) -> (r: SessionStatus)
        requires
            distinct_names(old(self).sessions@),
        ensures
            distinct_names(final(self).sessions@),
            status_view(r) == (StatusV {
                alias: alias@,
                state: SessionState::Active,
                pid,
                started_at: Some(started_at@),
                expires_at: None,
            }),
            session_named(*final(self), alias@) matches Some(s) && status_view(s.status) == status_view(r)
                && s.has_child && s.output@.len() == 0,
            others_kept(*old(self), *final(self), alias@),
    {
        let status = SessionStatus {
            alias: str_to_string(alias),
            state: SessionState::Active,
            pid,
            started_at: Some(started_at),
            expires_at: None,
        };
        let r = clone_status(&status);
        let s = ActiveSession { status, has_child: true, output: Vec::new() };
        let ghost old_s = self.sessions@;
        match self.find(alias) {
            Some(i) => {
                let n = str_to_string(alias);
                proof {
                    lemma_replace(old_s, i as int, (n, s));
                }
                self.sessions.set(i, (n, s));
            },
            None => {
                proof {
                    lemma_index_in(old_s, alias@);
                }
                self.sessions.push((str_to_string(alias), s));
                assert(self.sessions@.drop_last() =~= old_s);
                proof {
                    assert forall|n: Seq<char>| n != alias@ implies #[trigger] session_named(*self, n)
                        == session_named(*old(self), n) by {
                        lemma_index_in(old_s, n);
                    }
                }
            },
        }
        r
    }

    /// Adds an output line to the session named `alias` (see
    /// `buffer_push`); nothing where there is none.
    pub fn push_line(&mut self, alias: &str, line: &str)
        requires
            distinct_names(old(self).sessions@),
        ensures
            distinct_names(final(self).sessions@),
            match session_named(*old(self), alias@) {
                Some(s) => session_named(*final(self), alias@) matches Some(t) && strs_view(t.output@)
                    == buffer_push(strs_view(s.output@), line@) && status_view(t.status) == status_view(
                    s.status,
                ) && t.has_child == s.has_child,
                None => *final(self) == *old(self),
            },
            others_kept(*old(self), *final(self), alias@),
    {
        let i = match self.find(alias) {
            Some(i) => i,
            None => return ,
        };
        let ghost old_s = self.sessions@;
        let (name, mut s) = self.sessions.remove(i);
        let ghost before = strs_view(s.output@);
        if s.output.len() >= OUTPUT_BUFFER_LINES {
            s.output.remove(0);
        }
        s.output.push(str_to_string(line));
        assert(strs_view(s.output@) =~= buffer_push(before, line@));
        proof {
            lemma_replace(old_s, i as int, (name, s));
        }
        self.sessions.insert(i, (name, s));
        assert(self.sessions@ =~= old_s.update(i as int, (name, s)));
    }

    /// Marks the session named `alias` idle: no process id, no process.
    pub fn mark_idle(&mut self, alias: &str)
        requires
            distinct_names(old(self).sessions@),
        ensures
            distinct_names(final(self).sessions@),
            match session_named(*old(self), alias@) {
                Some(s) => session_named(*final(self), alias@) matches Some(t) && status_view(t.status)
                    == (StatusV { state: SessionState::Idle, pid: None, ..status_view(s.status) })
                    && !t.has_child && t.output@ == s.output@,
                None => *final(self) == *old(self),
            },
            others_kept(*old(self), *final(self), alias@),
    {
        let i = match self.find(alias) {
            Some(i) => i,
            None => return ,
        };
        let ghost old_s = self.sessions@;
        let (name, mut s) = self.sessions.remove(i);
        s.status.state = SessionState::Idle;
        s.status.pid = None;
        s.has_child = false;
        proof {
            lemma_replace(old_s, i as int, (name, s));
        }
        self.sessions.insert(i, (name, s));
        assert(self.sessions@ =~= old_s.update(i as int, (name, s)));
    }

    /// Removes the session named `alias`; returns whether it held a process
    /// (which the caller then kills).
    pub fn stop(&mut self, alias: &str) -> (r: bool)
        requires
            distinct_names(old(self).sessions@),
        ensures
            distinct_names(final(self).sessions@),
            session_named(*final(self), alias@) is None,
            r == (match session_named(*old(self), alias@) {
                Some(s) => s.has_child,
                None => false,
            }),
            others_kept(*old(self), *final(self), alias@),
    {
        let i = match self.find(alias) {
            Some(i) => i,
            None => return false,
        };
        let ghost old_s = self.sessions@;
        proof {
            lemma_index_in(old_s, alias@);
        }
        let (_, s) = self.sessions.remove(i);
        proof {
            assert forall|n: Seq<char>| n != alias@ implies #[trigger] session_named(*self, n)
                == session_named(*old(self), n) by {
                lemma_remove_other(old_s, i as int, alias@, n);
            }
            lemma_index_in(self.sessions@, alias@);
            if index_in(self.sessions@, alias@) is Some {
                let k = index_in(self.sessions@, alias@)->0;
                if k < i {
                    assert(old_s[k] == self.sessions@[k]);
                } else {
                    assert(old_s[k + 1] == self.sessions@[k]);
                }
            }
        }
        s.has_child
    }
}

} // verus!
