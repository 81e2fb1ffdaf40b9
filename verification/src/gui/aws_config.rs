//! The profiles of the user's AWS CLI files (`~/.aws/config` and
//! `~/.aws/credentials`), merged into one sorted list.
use vstd::prelude::*;
use crate::text::{
    trim, trim_chars, lines_of, split_lines, chars_of, string_of, slice_vec, starts_with,
    first_char_from, find_char, chars_eq, matches_at, str_to_string,
};
use crate::parser::opt_view;
use crate::gui::aws::{is_section_line, section_inner};

verus! {

/// A profile as the settings page shows it.
#[derive(Debug, Clone)]
pub struct AwsProfile {
    pub name: String,
    pub region: Option<String>,
    /// The linked `[sso-session …]` block.
    pub sso_session: Option<String>,
    pub sso_account_id: Option<String>,
    pub sso_role_name: Option<String>,
    /// Single-profile SSO settings (without a session block).
    pub sso_start_url: Option<String>,
    pub sso_region: Option<String>,
    /// `config` or `credentials`: the file it was first found in.
    pub source: String,
    /// It has a start URL, or its linked session block has one.
    pub is_sso: bool,
}

/// The value of an `AwsProfile`.
pub struct ProfileV {
    pub name: Seq<char>,
    pub region: Option<Seq<char>>,
    pub sso_session: Option<Seq<char>>,
    pub sso_account_id: Option<Seq<char>>,
    pub sso_role_name: Option<Seq<char>>,
    pub sso_start_url: Option<Seq<char>>,
    pub sso_region: Option<Seq<char>>,
    pub source: Seq<char>,
    pub is_sso: bool,
}

impl AwsProfile {
    pub open spec fn view(&self) -> ProfileV {
        ProfileV {
            name: self.name@,
            region: opt_view(self.region),
            sso_session: opt_view(self.sso_session),
            sso_account_id: opt_view(self.sso_account_id),
            sso_role_name: opt_view(self.sso_role_name),
            sso_start_url: opt_view(self.sso_start_url),
            sso_region: opt_view(self.sso_region),
            source: self.source@,
            is_sso: self.is_sso,
        }
    }
}

/// The profiles and SSO sessions found in the AWS files, and where the files
/// are.
#[derive(Debug, Clone)]
pub struct AwsConfigSnapshot {
    pub config_path: Option<String>,
    pub credentials_path: Option<String>,
    pub profiles: Vec<AwsProfile>,
    pub sso_sessions: Vec<String>,
}

/// The settings of an `[sso-session …]` block.
#[derive(Debug, Clone)]
pub struct SsoSession {
    pub sso_start_url: Option<String>,
    pub sso_region: Option<String>,
}

/// The value of an `SsoSession`.
pub struct SsoV {
    pub sso_start_url: Option<Seq<char>>,
    pub sso_region: Option<Seq<char>>,
}

impl SsoSession {
    pub open spec fn view(&self) -> SsoV {
        SsoV { sso_start_url: opt_view(self.sso_start_url), sso_region: opt_view(self.sso_region) }
    }
}

/// The section a line of `~/.aws/config` is in.
pub enum SectionV {
    Profile(int),
    Sso(Seq<char>),
    Skip,
}

/// What has been read of `~/.aws/config` so far.
pub struct ConfigScan {
    pub profiles: Seq<ProfileV>,
    pub sessions: Seq<(Seq<char>, SsoV)>,
    pub section: SectionV,
}

/// A new profile named `name` found in file `source`.
pub open spec fn new_profile(name: Seq<char>, source: Seq<char>) -> ProfileV {
    ProfileV {
        name,
        region: None,
        sso_session: None,
        sso_account_id: None,
        sso_role_name: None,
        sso_start_url: None,
        sso_region: None,
        source,
        is_sso: false,
    }
}

/// A line that is read: not empty, not a `#` or `;` comment.
pub open spec fn is_content(t: Seq<char>) -> bool {
    t.len() > 0 && t[0] != '#' && t[0] != ';'
}

/// The position of the SSO session named `n`.
pub open spec fn sso_pos(s: Seq<(Seq<char>, SsoV)>, n: Seq<char>) -> Option<int>
    decreases s.len(),
{
    if s.len() == 0 {
        None
    } else if s.last().0 == n {
        Some(s.len() - 1)
    } else {
        sso_pos(s.drop_last(), n)
    }
}

proof fn lemma_sso_pos(s: Seq<(Seq<char>, SsoV)>, n: Seq<char>)
    ensures
        match sso_pos(s, n) {
            Some(i) => 0 <= i < s.len() && s[i].0 == n,
            None => forall|j: int| 0 <= j < s.len() ==> s[j].0 != n,
        },
    decreases s.len(),
{
    if s.len() > 0 && s.last().0 != n {
        lemma_sso_pos(s.drop_last(), n);
        assert forall|j: int| 0 <= j < s.len() - 1 implies s[j] == s.drop_last()[j] by {}
    }
}

/// The sessions with one named `n` added where there is none.
pub open spec fn sso_entry(s: Seq<(Seq<char>, SsoV)>, n: Seq<char>) -> Seq<(Seq<char>, SsoV)> {
    match sso_pos(s, n) {
        Some(_) => s,
        None => s.push((n, SsoV { sso_start_url: None, sso_region: None })),
    }
}

/// A profile with setting `key` set to `v` (other keys are ignored).
pub open spec fn set_profile_key(p: ProfileV, key: Seq<char>, v: Seq<char>) -> ProfileV {
    if key == "region"@ {
        ProfileV { region: Some(v), ..p }
    } else if key == "sso_session"@ {
        ProfileV { sso_session: Some(v), ..p }
    } else if key == "sso_account_id"@ {
        ProfileV { sso_account_id: Some(v), ..p }
    } else if key == "sso_role_name"@ {
        ProfileV { sso_role_name: Some(v), ..p }
    } else if key == "sso_start_url"@ {
        ProfileV { sso_start_url: Some(v), ..p }
    } else if key == "sso_region"@ {
        ProfileV { sso_region: Some(v), ..p }
    } else {
        p
    }
}

/// A session block with setting `key` set to `v`.
pub open spec fn set_sso_key(s: SsoV, key: Seq<char>, v: Seq<char>) -> SsoV {
    if key == "sso_start_url"@ {
        SsoV { sso_start_url: Some(v), ..s }
    } else if key == "sso_region"@ {
        SsoV { sso_region: Some(v), ..s }
    } else {
        s
    }
}

/// What one (trimmed) line of `~/.aws/config` does to what has been read.
pub open spec fn config_step(st: ConfigScan, t: Seq<char>) -> ConfigScan {
    if !is_content(t) {
        st
    } else if is_section_line(t) {
        let inner = section_inner(t);
        if inner == "default"@ {
            ConfigScan {
                profiles: st.profiles.push(new_profile("default"@, "config"@)),
                section: SectionV::Profile(st.profiles.len() as int),
                ..st
            }
        } else if starts_with(inner, "profile "@) {
            ConfigScan {
                profiles: st.profiles.push(new_profile(trim(inner.skip(8)), "config"@)),
                section: SectionV::Profile(st.profiles.len() as int),
                ..st
            }
        } else if starts_with(inner, "sso-session "@) {
            let n = trim(inner.skip(12));
            ConfigScan { sessions: sso_entry(st.sessions, n), section: SectionV::Sso(n), ..st }
        } else {
            ConfigScan { section: SectionV::Skip, ..st }
        }
    } else {
        match first_char_from(t, '=', 0) {
            None => st,
            Some(e) => {
                let key = trim(t.take(e));
                let v = trim(t.skip(e + 1));
                match st.section {
                    SectionV::Profile(i) => if 0 <= i < st.profiles.len() {
                        ConfigScan {
                            profiles: st.profiles.update(i, set_profile_key(st.profiles[i], key, v)),
                            ..st
                        }
                    } else {
                        st
                    },
                    SectionV::Sso(n) => {
                        let ss = sso_entry(st.sessions, n);
                        match sso_pos(ss, n) {
                            Some(k) => ConfigScan {
                                sessions: ss.update(k, (n, set_sso_key(ss[k].1, key, v))),
                                ..st
                            },
                            None => st,
                        }
                    },
                    SectionV::Skip => st,
                }
            },
        }
    }
}

/// What the first `n` lines of `~/.aws/config` give.
pub open spec fn config_fold(lines: Seq<Seq<char>>, n: int) -> ConfigScan
    decreases n,
{
    if n <= 0 {
        ConfigScan { profiles: Seq::empty(), sessions: Seq::empty(), section: SectionV::Skip }
    } else {
        config_step(config_fold(lines, n - 1), trim(lines[n - 1]))
    }
}

/// The profiles and SSO session blocks of `~/.aws/config` text, in the order
/// found (a session block met twice is one session).
pub open spec fn parse_config_spec(content: Seq<char>) -> ConfigScan {
    config_fold(lines_of(content), lines_of(content).len() as int)
}


// ─── Reading `~/.aws/config` ────────────────────────────────────────────────
/// The section the reader is in.
pub enum Section {
    Profile(usize),
    Sso(String),
    Skip,
}

impl Section {
    pub open spec fn view(&self) -> SectionV {
        match self {
            Section::Profile(i) => SectionV::Profile(*i as int),
            Section::Sso(n) => SectionV::Sso(n@),
            Section::Skip => SectionV::Skip,
        }
    }
}

pub open spec fn profiles_view(v: Seq<AwsProfile>) -> Seq<ProfileV> {
    Seq::new(v.len(), |i: int| v[i].view())
}

pub open spec fn sessions_view(v: Seq<(String, SsoSession)>) -> Seq<(Seq<char>, SsoV)> {
    Seq::new(v.len(), |i: int| (v[i].0@, v[i].1.view()))
}

fn make_profile(name: String, source: &str) -> (r: AwsProfile)
    ensures
        r.view() == new_profile(name@, source@),
{
    AwsProfile {
        name,
        region: None,
        sso_session: None,
        sso_account_id: None,
        sso_role_name: None,
        sso_start_url: None,
        sso_region: None,
        source: str_to_string(source),
        is_sso: false,
    }
}

fn sso_find(v: &Vec<(String, SsoSession)>, n: &Vec<char>) -> (r: Option<usize>)
    ensures
        match r {
            Some(i) => sso_pos(sessions_view(v@), n@) == Some(i as int) && i < v@.len(),
            None => sso_pos(sessions_view(v@), n@) is None,
        },
{
    let ghost sv = sessions_view(v@);
    let mut j = v.len();
    assert(sv.take(j as int) =~= sv);
    while j > 0
        invariant
            j <= v@.len(),
            sv == sessions_view(v@),
            sso_pos(sv, n@) == sso_pos(sv.take(j as int), n@),
        decreases j,
    {
        assert(sv.take(j as int).drop_last() =~= sv.take(j - 1));
        let name = chars_of(v[j - 1].0.as_str());
        if chars_eq(&name, n) {
            assert(sv.take(j as int).last() == sv[j - 1]);
            return Some(j - 1);
        }
        j = j - 1;
    }
    None
}

fn sso_entry_exec(v: &mut Vec<(String, SsoSession)>, n: &Vec<char>) -> (r: usize)
    ensures
        sessions_view(final(v)@) == sso_entry(sessions_view(old(v)@), n@),
        sso_pos(sessions_view(final(v)@), n@) == Some(r as int),
        r < final(v)@.len(),
{
    match sso_find(v, n) {
        Some(i) => i,
        None => {
            let ghost before = sessions_view(v@);
            v.push((string_of(n), SsoSession { sso_start_url: None, sso_region: None }));
            assert(sessions_view(v@) =~= before.push((n@, SsoV { sso_start_url: None, sso_region: None })));
            assert(sessions_view(v@).drop_last() =~= before);
            v.len() - 1
        },
    }
}

fn key_is(key: &Vec<char>, lit: &str) -> (r: bool)
    ensures
        r == (key@ == lit@),
{
    let l = chars_of(lit);
    chars_eq(key, &l)
}

fn set_profile_key_exec(p: &mut AwsProfile, key: &Vec<char>, v: String)
    ensures
        final(p).view() == set_profile_key(old(p).view(), key@, v@),
{
    if key_is(key, "region") {
        p.region = Some(v);
    } else if key_is(key, "sso_session") {
        p.sso_session = Some(v);
    } else if key_is(key, "sso_account_id") {
        p.sso_account_id = Some(v);
    } else if key_is(key, "sso_role_name") {
        p.sso_role_name = Some(v);
    } else if key_is(key, "sso_start_url") {
        p.sso_start_url = Some(v);
    } else if key_is(key, "sso_region") {
        p.sso_region = Some(v);
    }
}

fn set_sso_key_exec(s: &mut SsoSession, key: &Vec<char>, v: String)
    ensures
        final(s).view() == set_sso_key(old(s).view(), key@, v@),
{
    if key_is(key, "sso_start_url") {
        s.sso_start_url = Some(v);
    } else if key_is(key, "sso_region") {
        s.sso_region = Some(v);
    }
}

fn starts_with_lit(s: &Vec<char>, lit: &str) -> (r: bool)
    ensures
        r == starts_with(s@, lit@),
{
    let p = chars_of(lit);
    p.len() <= s.len() && matches_at(s, &p, 0)
}

/// Reads `~/.aws/config` text (see `parse_config_spec`).
pub fn parse_config(content: &str) -> (r: (Vec<AwsProfile>, Vec<(String, SsoSession)>))
    ensures
        profiles_view(r.0@) == parse_config_spec(content@).profiles,
        sessions_view(r.1@) == parse_config_spec(content@).sessions,
{
    let lines = split_lines(&chars_of(content));
    let ghost all = lines_of(content@);
    let mut profiles: Vec<AwsProfile> = Vec::new();
    let mut sessions: Vec<(String, SsoSession)> = Vec::new();
    let mut section = Section::Skip;
    let mut i: usize = 0;
    assert(profiles_view(profiles@) =~= Seq::<ProfileV>::empty());
    assert(sessions_view(sessions@) =~= Seq::<(Seq<char>, SsoV)>::empty());
    while i < lines.len()
        invariant
            i <= lines@.len() == all.len(),
            all == lines_of(content@),
            forall|k: int| 0 <= k < lines@.len() ==> (#[trigger] lines@[k])@ == all[k],
            profiles_view(profiles@) == config_fold(all, i as int).profiles,
            sessions_view(sessions@) == config_fold(all, i as int).sessions,
            section.view() == config_fold(all, i as int).section,
        decreases lines@.len() - i,
    {
        let t = trim_chars(&lines[i]);
        let ghost st = config_fold(all, i as int);
        let n = t.len();
        if n == 0 || t[0] == '#' || t[0] == ';' {
        } else if t[0] == '[' && t[n - 1] == ']' {
            let inner = trim_chars(&slice_vec(&t, 1, n - 1));
            if key_is(&inner, "default") {
                let ghost before = profiles_view(profiles@);
                profiles.push(make_profile(str_to_string("default"), "config"));
                assert(profiles_view(profiles@) =~= before.push(new_profile("default"@, "config"@)));
                section = Section::Profile(profiles.len() - 1);
            } else if starts_with_lit(&inner, "profile ") {
                proof {
                    reveal_strlit("profile ");
                }
                let rest = slice_vec(&inner, 8, inner.len());
                assert(rest@ =~= inner@.skip(8));
                let name = string_of(&trim_chars(&rest));
                let ghost before = profiles_view(profiles@);
                let ghost nv = name@;
                profiles.push(make_profile(name, "config"));
                assert(profiles_view(profiles@) =~= before.push(new_profile(nv, "config"@)));
                section = Section::Profile(profiles.len() - 1);
            } else if starts_with_lit(&inner, "sso-session ") {
                proof {
                    reveal_strlit("sso-session ");
                }
                let rest = slice_vec(&inner, 12, inner.len());
                assert(rest@ =~= inner@.skip(12));
                let name = trim_chars(&rest);
                sso_entry_exec(&mut sessions, &name);
                section = Section::Sso(string_of(&name));
            } else {
                section = Section::Skip;
            }
        } else {
            match find_char(&t, '=', 0) {
                None => {},
                Some(e) => {
                    let key = trim_chars(&slice_vec(&t, 0, e));
                    assert(t@.subrange(0, e as int) =~= t@.take(e as int));
                    let v = string_of(&trim_chars(&slice_vec(&t, e + 1, n)));
                    assert(t@.subrange(e + 1, n as int) =~= t@.skip(e + 1));
                    match &section {
                        Section::Profile(idx) => {
                            let idx = *idx;
                            if idx < profiles.len() {
                                let ghost before = profiles_view(profiles@);
                                let mut p = profiles.remove(idx);
                                set_profile_key_exec(&mut p, &key, v);
                                let ghost pv = p.view();
                                profiles.insert(idx, p);
                                assert(profiles_view(profiles@) =~= before.update(idx as int, pv));
                            }
                        },
                        Section::Sso(nm) => {
                            let nv = chars_of(nm.as_str());
                            let k = sso_entry_exec(&mut sessions, &nv);
                            let ghost before = sessions_view(sessions@);
                            proof {
                                lemma_sso_pos(before, nv@);
                            }
                            let (name, mut s) = sessions.remove(k);
                            set_sso_key_exec(&mut s, &key, v);
                            let ghost sv = s.view();
                            let ghost namev = name@;
                            sessions.insert(k, (name, s));
                            assert(namev == before[k as int].0);
                            assert(sessions_view(sessions@) =~= before.update(k as int, (nv@, sv)));
                        },
                        Section::Skip => {},
                    }
                },
            }
        }
        i = i + 1;
    }
    (profiles, sessions)
}


// ─── Reading `~/.aws/credentials` ───────────────────────────────────────────
/// What one (trimmed) line of `~/.aws/credentials` does to the profiles read
/// so far and the current one.
pub open spec fn creds_step(st: (Seq<ProfileV>, Option<int>), t: Seq<char>) -> (Seq<ProfileV>, Option<int>) {
    if !is_content(t) {
        st
    } else if is_section_line(t) {
        (st.0.push(new_profile(section_inner(t), "credentials"@)), Some(st.0.len() as int))
    } else {
        match first_char_from(t, '=', 0) {
            Some(e) => match st.1 {
                Some(i) => if trim(t.take(e)) == "region"@ && 0 <= i < st.0.len() {
                    (st.0.update(i, ProfileV { region: Some(trim(t.skip(e + 1))), ..st.0[i] }), st.1)
                } else {
                    st
                },
                None => st,
            },
            None => st,
        }
    }
}

/// What the first `n` lines of `~/.aws/credentials` give.
pub open spec fn creds_fold(lines: Seq<Seq<char>>, n: int) -> (Seq<ProfileV>, Option<int>)
    decreases n,
{
    if n <= 0 {
        (Seq::empty(), None)
    } else {
        creds_step(creds_fold(lines, n - 1), trim(lines[n - 1]))
    }
}

/// The profiles of `~/.aws/credentials` text: one per `[NAME]` section,
/// with its `region`.
pub open spec fn parse_credentials_spec(content: Seq<char>) -> Seq<ProfileV> {
    creds_fold(lines_of(content), lines_of(content).len() as int).0
}

/// Reads `~/.aws/credentials` text (see `parse_credentials_spec`).
pub fn parse_credentials(content: &str) -> (r: Vec<AwsProfile>)
    ensures
        profiles_view(r@) == parse_credentials_spec(content@),
{
    let lines = split_lines(&chars_of(content));
    let ghost all = lines_of(content@);
    let mut profiles: Vec<AwsProfile> = Vec::new();
    let mut current: Option<usize> = None;
    let mut i: usize = 0;
    assert(profiles_view(profiles@) =~= Seq::<ProfileV>::empty());
    while i < lines.len()
        invariant
            i <= lines@.len() == all.len(),
            all == lines_of(content@),
            forall|k: int| 0 <= k < lines@.len() ==> (#[trigger] lines@[k])@ == all[k],
            profiles_view(profiles@) == creds_fold(all, i as int).0,
            creds_fold(all, i as int).1 == (match current {
                Some(c) => Some(c as int),
                None => None,
            }),
        decreases lines@.len() - i,
    {
        let t = trim_chars(&lines[i]);
        let n = t.len();
        if n == 0 || t[0] == '#' || t[0] == ';' {
        } else if t[0] == '[' && t[n - 1] == ']' {
            let inner = string_of(&trim_chars(&slice_vec(&t, 1, n - 1)));
            let ghost before = profiles_view(profiles@);
            let ghost iv = inner@;
            profiles.push(make_profile(inner, "credentials"));
            assert(profiles_view(profiles@) =~= before.push(new_profile(iv, "credentials"@)));
            current = Some(profiles.len() - 1);
        } else {
            match find_char(&t, '=', 0) {
                Some(e) => {
                    match current {
                        Some(idx) => {
                            let key = trim_chars(&slice_vec(&t, 0, e));
                            assert(t@.subrange(0, e as int) =~= t@.take(e as int));
                            if key_is(&key, "region") && idx < profiles.len() {
                                let v = string_of(&trim_chars(&slice_vec(&t, e + 1, n)));
                                assert(t@.subrange(e + 1, n as int) =~= t@.skip(e + 1));
                                let ghost before = profiles_view(profiles@);
                                let mut p = profiles.remove(idx);
                                p.region = Some(v);
                                let ghost pv = p.view();
                                profiles.insert(idx, p);
                                assert(profiles_view(profiles@) =~= before.update(idx as int, pv));
                            }
                        },
                        None => {},
                    }
                },
                None => {},
            }
        }
        i = i + 1;
    }
    profiles
}


// ─── Ordering names ─────────────────────────────────────────────────────────
/// `a` sorts before `b`: at the first character where they differ, `a`'s
/// is the smaller; or `a` is a proper prefix of `b`. This is the order of
/// `String` (UTF-8 bytes compare as the characters they encode).
pub open spec fn str_lt(a: Seq<char>, b: Seq<char>) -> bool
    decreases a.len(),
{
    if a.len() == 0 {
        b.len() > 0
    } else if b.len() == 0 {
        false
    } else if a[0] != b[0] {
        a[0] < b[0]
    } else {
        str_lt(a.drop_first(), b.drop_first())
    }
}

pub proof fn lemma_lt_irreflexive(a: Seq<char>)
    ensures
        !str_lt(a, a),
    decreases a.len(),
{
    if a.len() > 0 {
        lemma_lt_irreflexive(a.drop_first());
    }
}

pub proof fn lemma_lt_transitive(a: Seq<char>, b: Seq<char>, c: Seq<char>)
    requires
        str_lt(a, b),
        str_lt(b, c),
    ensures
        str_lt(a, c),
    decreases a.len(),
{
    if a.len() > 0 && b.len() > 0 && c.len() > 0 && a[0] == b[0] && b[0] == c[0] {
        lemma_lt_transitive(a.drop_first(), b.drop_first(), c.drop_first());
    }
}

pub proof fn lemma_lt_total(a: Seq<char>, b: Seq<char>)
    ensures
        a == b || str_lt(a, b) || str_lt(b, a),
    decreases a.len(),
{
    if a.len() > 0 && b.len() > 0 && a[0] == b[0] {
        lemma_lt_total(a.drop_first(), b.drop_first());
        if a.drop_first() == b.drop_first() {
            assert(a =~= seq![a[0]] + a.drop_first());
            assert(b =~= seq![b[0]] + b.drop_first());
        }
    } else if a.len() > 0 && b.len() > 0 {
    } else if a.len() == 0 && b.len() == 0 {
        assert(a =~= b);
    }
}

/// Executable `str_lt`.
pub fn chars_lt(a: &Vec<char>, b: &Vec<char>) -> (r: bool)
    ensures
        r == str_lt(a@, b@),
{
    let mut i: usize = 0;
    assert(a@.skip(0) =~= a@);
    assert(b@.skip(0) =~= b@);
    while i < a.len() && i < b.len()
        invariant
            i <= a@.len(),
            i <= b@.len(),
            str_lt(a@, b@) == str_lt(a@.skip(i as int), b@.skip(i as int)),
        decreases a@.len() - i,
    {
        if a[i] != b[i] {
            return a[i] < b[i];
        }
        assert(a@.skip(i as int).drop_first() =~= a@.skip(i + 1));
        assert(b@.skip(i as int).drop_first() =~= b@.skip(i + 1));
        i = i + 1;
    }
    i < b.len()
}

// ─── Merging the two files ──────────────────────────────────────────────────
/// The profiles of `~/.aws/config` by name: a name found twice keeps the
/// later profile.
pub open spec fn config_map(cfg: Seq<ProfileV>, n: int) -> Map<Seq<char>, ProfileV>
    decreases n,
{
    if n <= 0 {
        Map::empty()
    } else {
        config_map(cfg, n - 1).insert(cfg[n - 1].name, cfg[n - 1])
    }
}

/// `m` with the profiles of `~/.aws/credentials` added where their name is
/// not yet in it (the first of a name found twice).
pub open spec fn credentials_map(m: Map<Seq<char>, ProfileV>, creds: Seq<ProfileV>, n: int) -> Map<Seq<char>, ProfileV>
    decreases n,
{
    if n <= 0 {
        m
    } else {
        let m2 = credentials_map(m, creds, n - 1);
        if m2.contains_key(creds[n - 1].name) {
            m2
        } else {
            m2.insert(creds[n - 1].name, creds[n - 1])
        }
    }
}

/// The profiles of both files by name: the config file wins, the
/// credentials file adds the profiles it lacks.
pub open spec fn merged_profiles(cfg: Seq<ProfileV>, creds: Seq<ProfileV>) -> Map<Seq<char>, ProfileV> {
    credentials_map(config_map(cfg, cfg.len() as int), creds, creds.len() as int)
}

/// A profile marked as SSO-backed: it has any `sso_*` setting (a linked
/// session, account, role, start URL or region), or the session block it
/// links has a start URL.
pub open spec fn with_sso(p: ProfileV, sessions: Seq<(Seq<char>, SsoV)>) -> ProfileV {
    ProfileV {
        is_sso: p.sso_session is Some || p.sso_account_id is Some || p.sso_role_name is Some
            || p.sso_start_url is Some || p.sso_region is Some || match p.sso_session {
            Some(s) => match sso_pos(sessions, s) {
                Some(k) => sessions[k].1.sso_start_url is Some,
                None => false,
            },
            None => false,
        },
        ..p
    }
}

/// The names of `v` rise strictly.
pub open spec fn sorted_profiles(v: Seq<ProfileV>) -> bool {
    forall|i: int, j: int| 0 <= i < j < v.len() ==> str_lt(#[trigger] v[i].name, #[trigger] v[j].name)
}

/// `v` lists the profiles of `m`, one per name.
pub open spec fn lists_map(v: Seq<ProfileV>, m: Map<Seq<char>, ProfileV>) -> bool {
    &&& forall|i: int| 0 <= i < v.len() ==> m.contains_key(#[trigger] v[i].name) && m[v[i].name] == v[i]
    &&& forall|k: Seq<char>| #[trigger] m.contains_key(k) ==> exists|i: int| 0 <= i < v.len() && v[i].name == k
}

fn name_before(p: &AwsProfile, name: &Vec<char>) -> (r: bool)
    ensures
        r == str_lt(p.name@, name@),
{
    let vn = chars_of(p.name.as_str());
    chars_lt(&vn, name)
}

/// Puts profile `p` into the sorted list `v`: in place of the profile of
/// the same name where `replace` (else that one stays), or at its sorted
/// position.
fn sorted_put(v: &mut Vec<AwsProfile>, p: AwsProfile, replace: bool, Ghost(m): Ghost<Map<Seq<char>, ProfileV>>) -> (added: bool)
    requires
        sorted_profiles(profiles_view(old(v)@)),
        lists_map(profiles_view(old(v)@), m),
    ensures
        sorted_profiles(profiles_view(final(v)@)),
        added == !m.contains_key(p.name@),
        lists_map(
            profiles_view(final(v)@),
            if replace || !m.contains_key(p.name@) {
                m.insert(p.name@, p.view())
            } else {
                m
            },
        ),
{
    let ghost old_v = profiles_view(v@);
    let name = chars_of(p.name.as_str());
    let mut i: usize = 0;
    while i < v.len() && name_before(&v[i], &name)
        invariant
            i <= v@.len(),
            old_v == profiles_view(v@),
            name@ == p.name@,
            forall|k: int| 0 <= k < i ==> str_lt(#[trigger] old_v[k].name, name@),
        decreases v@.len() - i,
    {
        i = i + 1;
    }
    proof {
        if i < v@.len() {
            lemma_lt_total(old_v[i as int].name, name@);
        }
    }
    let same = i < v.len() && {
        let vn = chars_of(v[i].name.as_str());
        chars_eq(&vn, &name)
    };
    if same {
        proof {
            assert(m.contains_key(p.name@));
        }
        if replace {
            let ghost pv = p.view();
            v.set(i, p);
            proof {
                assert(profiles_view(v@) =~= old_v.update(i as int, pv));
                let nm = m.insert(pv.name, pv);
                assert forall|k: Seq<char>| #[trigger] nm.contains_key(k) implies exists|j: int|
                    0 <= j < profiles_view(v@).len() && profiles_view(v@)[j].name == k by {
                    if k != pv.name {
                        let j = choose|j: int| 0 <= j < old_v.len() && old_v[j].name == k;
                        assert(profiles_view(v@)[j].name == k);
                    } else {
                        assert(profiles_view(v@)[i as int].name == k);
                    }
                }
                assert forall|j: int| 0 <= j < profiles_view(v@).len() implies nm.contains_key(
                    #[trigger] profiles_view(v@)[j].name,
                ) && nm[profiles_view(v@)[j].name] == profiles_view(v@)[j] by {
                    if j != i {
                        if old_v[j].name == pv.name {
                            if j < i {
                                lemma_lt_irreflexive(pv.name);
                            } else {
                                assert(str_lt(old_v[i as int].name, old_v[j].name));
                                lemma_lt_irreflexive(pv.name);
                            }
                        }
                    }
                }
            }
        }
        false
    } else {
        let ghost pv = p.view();
        proof {
            // every name from position i on comes after the new one
            assert forall|k: int| i <= k < old_v.len() implies str_lt(name@, #[trigger] old_v[k].name) by {
                if k > i {
                    lemma_lt_transitive(name@, old_v[i as int].name, old_v[k].name);
                }
            }
            assert(!m.contains_key(p.name@)) by {
                if m.contains_key(p.name@) {
                    let j = choose|j: int| 0 <= j < old_v.len() && old_v[j].name == p.name@;
                    if j < i {
                        lemma_lt_irreflexive(name@);
                    } else {
                        lemma_lt_irreflexive(name@);
                    }
                }
            }
        }
        v.insert(i, p);
        proof {
            let nv = profiles_view(v@);
            assert(nv =~= old_v.insert(i as int, pv));
            let nm = m.insert(pv.name, pv);
            assert forall|a: int, b: int| 0 <= a < b < nv.len() implies str_lt(
                #[trigger] nv[a].name,
                #[trigger] nv[b].name,
            ) by {
                if a < i && b < i {
                    assert(nv[a] == old_v[a] && nv[b] == old_v[b]);
                } else if a < i && b == i {
                } else if a < i && b > i {
                    lemma_lt_transitive(nv[a].name, name@, nv[b].name);
                } else if a == i {
                } else {
                    assert(nv[a] == old_v[a - 1] && nv[b] == old_v[b - 1]);
                }
            }
            assert forall|k: Seq<char>| #[trigger] nm.contains_key(k) implies exists|j: int|
                0 <= j < nv.len() && nv[j].name == k by {
                if k != pv.name {
                    let j = choose|j: int| 0 <= j < old_v.len() && old_v[j].name == k;
                    if j < i {
                        assert(nv[j].name == k);
                    } else {
                        assert(nv[j + 1].name == k);
                    }
                } else {
                    assert(nv[i as int].name == k);
                }
            }
            assert forall|j: int| 0 <= j < nv.len() implies nm.contains_key(#[trigger] nv[j].name)
                && nm[nv[j].name] == nv[j] by {
                if j < i {
                    assert(nv[j] == old_v[j]);
                } else if j > i {
                    assert(nv[j] == old_v[j - 1]);
                }
            }
        }
        true
    }
}


fn clone_opt(o: &Option<String>) -> (r: Option<String>)
    ensures
        opt_view(r) == opt_view(*o),
{
    match o {
        Some(x) => Some(x.clone()),
        None => None,
    }
}

fn clone_profile(p: &AwsProfile) -> (r: AwsProfile)
    ensures
        r.view() == p.view(),
{
    AwsProfile {
        name: p.name.clone(),
        region: clone_opt(&p.region),
        sso_session: clone_opt(&p.sso_session),
        sso_account_id: clone_opt(&p.sso_account_id),
        sso_role_name: clone_opt(&p.sso_role_name),
        sso_start_url: clone_opt(&p.sso_start_url),
        sso_region: clone_opt(&p.sso_region),
        source: p.source.clone(),
        is_sso: p.is_sso,
    }
}

fn sso_flag(p: &AwsProfile, sessions: &Vec<(String, SsoSession)>) -> (r: bool)
    ensures
        r == with_sso(p.view(), sessions_view(sessions@)).is_sso,
{
    let inline = p.sso_session.is_some() || p.sso_account_id.is_some() || p.sso_role_name.is_some()
        || p.sso_start_url.is_some() || p.sso_region.is_some();
    let linked = match &p.sso_session {
        Some(s) => {
            let sv = chars_of(s.as_str());
            match sso_find(sessions, &sv) {
                Some(k) => {
                    assert(sessions_view(sessions@)[k as int].1 == sessions@[k as int].1.view());
                    match &sessions[k].1.sso_start_url {
                        Some(_) => true,
                        None => false,
                    }
                },
                None => false,
            }
        },
        None => false,
    };
    inline || linked
}

/// Merges the profiles of both files (see `merged_profiles`), sorted by
/// name, each marked SSO-backed or not (see `with_sso`).
pub fn merge_profiles(cfg: &Vec<AwsProfile>, creds: &Vec<AwsProfile>, sessions: &Vec<(String, SsoSession)>) -> (r: Vec<AwsProfile>)
    ensures
        sorted_profiles(profiles_view(r@)),
        ({
            let m = merged_profiles(profiles_view(cfg@), profiles_view(creds@));
            &&& forall|i: int|
                0 <= i < r@.len() ==> m.contains_key(#[trigger] r@[i].name@) && r@[i].view()
                    == with_sso(m[r@[i].name@], sessions_view(sessions@))
            &&& forall|k: Seq<char>|
                #[trigger] m.contains_key(k) ==> exists|i: int| 0 <= i < r@.len() && r@[i].name@ == k
        }),
{
    let ghost cv = profiles_view(cfg@);
    let ghost kv = profiles_view(creds@);
    let mut v: Vec<AwsProfile> = Vec::new();
    let mut i: usize = 0;
    assert(profiles_view(v@) =~= Seq::<ProfileV>::empty());
    while i < cfg.len()
        invariant
            i <= cfg@.len(),
            cv == profiles_view(cfg@),
            sorted_profiles(profiles_view(v@)),
            lists_map(profiles_view(v@), config_map(cv, i as int)),
        decreases cfg@.len() - i,
    {
        let p = clone_profile(&cfg[i]);
        assert(p.view() == cv[i as int]);
        sorted_put(&mut v, p, true, Ghost(config_map(cv, i as int)));
        i = i + 1;
    }
    let ghost m0 = config_map(cv, cv.len() as int);
    let mut j: usize = 0;
    while j < creds.len()
        invariant
            j <= creds@.len(),
            kv == profiles_view(creds@),
            sorted_profiles(profiles_view(v@)),
            lists_map(profiles_view(v@), credentials_map(m0, kv, j as int)),
        decreases creds@.len() - j,
    {
        let p = clone_profile(&creds[j]);
        assert(p.view() == kv[j as int]);
        sorted_put(&mut v, p, false, Ghost(credentials_map(m0, kv, j as int)));
        j = j + 1;
    }
    let ghost m = merged_profiles(cv, kv);
    let ghost sv = sessions_view(sessions@);
    let ghost base = profiles_view(v@);
    let mut k: usize = 0;
    while k < v.len()
        invariant
            k <= v@.len() == base.len(),
            sorted_profiles(base),
            lists_map(base, m),
            sv == sessions_view(sessions@),
            forall|t: int| 0 <= t < v@.len() ==> (#[trigger] profiles_view(v@)[t]).name == base[t].name,
            forall|t: int|
                0 <= t < k ==> (#[trigger] profiles_view(v@)[t]) == with_sso(base[t], sv),
            forall|t: int| k <= t < v@.len() ==> (#[trigger] profiles_view(v@)[t]) == base[t],
        decreases v@.len() - k,
    {
        let flag = sso_flag(&v[k], sessions);
        let ghost before = profiles_view(v@);
        assert(before[k as int] == v@[k as int].view());
        assert(before[k as int] == base[k as int]);
        let mut p = v.remove(k);
        p.is_sso = flag;
        let ghost pv = p.view();
        assert(pv == with_sso(base[k as int], sv));
        v.insert(k, p);
        assert(profiles_view(v@) =~= before.update(k as int, pv));
        assert forall|t: int| 0 <= t < v@.len() implies (#[trigger] profiles_view(v@)[t]).name
            == base[t].name by {
            if t != k {
                assert(profiles_view(v@)[t] == before[t]);
            }
        }
        k = k + 1;
    }
    proof {
        let fv = profiles_view(v@);
        assert forall|a: int, b: int| 0 <= a < b < fv.len() implies str_lt(
            #[trigger] fv[a].name,
            #[trigger] fv[b].name,
        ) by {
            assert(fv[a].name == base[a].name && fv[b].name == base[b].name);
        }
        assert forall|t: int| 0 <= t < v@.len() implies m.contains_key(#[trigger] v@[t].name@)
            && v@[t].view() == with_sso(m[v@[t].name@], sv) by {
            assert(fv[t] == v@[t].view());
        }
        assert forall|key: Seq<char>| #[trigger] m.contains_key(key) implies exists|t: int|
            0 <= t < v@.len() && v@[t].name@ == key by {
            let t = choose|t: int| 0 <= t < base.len() && base[t].name == key;
            assert(fv[t] == v@[t].view());
        }
    }
    v
}

/// The names of `v` rise strictly.
pub open spec fn sorted_names(v: Seq<Seq<char>>) -> bool {
    forall|i: int, j: int| 0 <= i < j < v.len() ==> str_lt(#[trigger] v[i], #[trigger] v[j])
}

fn str_before(s: &String, name: &Vec<char>) -> (r: bool)
    ensures
        r == str_lt(s@, name@),
{
    let sv = chars_of(s.as_str());
    chars_lt(&sv, name)
}

/// Some element of `v` is `k`.
pub open spec fn has_name(v: Seq<Seq<char>>, k: Seq<char>) -> bool {
    exists|i: int| 0 <= i < v.len() && #[trigger] v[i] == k
}

fn insert_name(v: &mut Vec<String>, n: String)
    requires
        sorted_names(crate::json::strs_view(old(v)@)),
    ensures
        sorted_names(crate::json::strs_view(final(v)@)),
        forall|k: Seq<char>|
            has_name(crate::json::strs_view(final(v)@), k) <==> (k == n@ || has_name(
                crate::json::strs_view(old(v)@),
                k,
            )),
{
    let ghost ov = crate::json::strs_view(v@);
    let name = chars_of(n.as_str());
    let mut i: usize = 0;
    while i < v.len() && str_before(&v[i], &name)
        invariant
            i <= v@.len(),
            ov == crate::json::strs_view(v@),
            name@ == n@,
            forall|k: int| 0 <= k < i ==> str_lt(#[trigger] ov[k], name@),
        decreases v@.len() - i,
    {
        i = i + 1;
    }
    proof {
        if i < v@.len() {
            lemma_lt_total(ov[i as int], name@);
        }
    }
    let same = i < v.len() && chars_eq(&chars_of(v[i].as_str()), &name);
    if same {
        return ;
    }
    let ghost nv0 = n@;
    proof {
        assert forall|k: int| i <= k < ov.len() implies str_lt(name@, #[trigger] ov[k]) by {
            if k > i {
                lemma_lt_transitive(name@, ov[i as int], ov[k]);
            }
        }
    }
    v.insert(i, n);
    proof {
        let nv = crate::json::strs_view(v@);
        assert(nv =~= ov.insert(i as int, nv0));
        assert forall|a: int, b: int| 0 <= a < b < nv.len() implies str_lt(
            #[trigger] nv[a],
            #[trigger] nv[b],
        ) by {
            if a < i && b < i {
            } else if a < i && b == i {
            } else if a < i && b > i {
                lemma_lt_transitive(nv[a], name@, nv[b]);
            } else if a == i {
            } else {
                assert(nv[a] == ov[a - 1] && nv[b] == ov[b - 1]);
            }
        }
        assert forall|k: Seq<char>| has_name(nv, k) <==> (k == nv0 || has_name(ov, k)) by {
            if has_name(nv, k) {
                let j = choose|j: int| 0 <= j < nv.len() && nv[j] == k;
                if j < i {
                    assert(ov[j] == k);
                } else if j > i {
                    assert(ov[j - 1] == k);
                }
            }
            if has_name(ov, k) {
                let j = choose|j: int| 0 <= j < ov.len() && ov[j] == k;
                if j < i {
                    assert(nv[j] == k);
                } else {
                    assert(nv[j + 1] == k);
                }
            }
            if k == nv0 {
                assert(nv[i as int] == k);
            }
        }
    }
}

/// The names of the SSO session blocks, sorted.
pub fn session_names_sorted(sessions: &Vec<(String, SsoSession)>) -> (r: Vec<String>)
    ensures
        sorted_names(crate::json::strs_view(r@)),
        forall|k: Seq<char>|
            has_name(crate::json::strs_view(r@), k) <==> exists|j: int|
                0 <= j < sessions@.len() && #[trigger] sessions_view(sessions@)[j].0 == k,
{
    let mut r: Vec<String> = Vec::new();
    let mut i: usize = 0;
    while i < sessions.len()
        invariant
            i <= sessions@.len(),
            sorted_names(crate::json::strs_view(r@)),
            forall|k: Seq<char>|
                has_name(crate::json::strs_view(r@), k) <==> exists|j: int|
                    0 <= j < i && #[trigger] sessions_view(sessions@)[j].0 == k,
        decreases sessions@.len() - i,
    {
        let ghost before = crate::json::strs_view(r@);
        let ghost sv = sessions_view(sessions@);
        insert_name(&mut r, sessions[i].0.clone());
        proof {
            assert forall|k: Seq<char>| has_name(crate::json::strs_view(r@), k) <==> exists|j: int|
                0 <= j < i + 1 && #[trigger] sv[j].0 == k by {
                if k == sv[i as int].0 {
                    assert(sv[i as int].0 == k);
                }
                if exists|j: int| 0 <= j < i + 1 && #[trigger] sv[j].0 == k {
                    let j = choose|j: int| 0 <= j < i + 1 && #[trigger] sv[j].0 == k;
                    if j < i {
                        assert(exists|j2: int| 0 <= j2 < i && #[trigger] sv[j2].0 == k);
                    }
                }
            }
        }
        i = i + 1;
    }
    r
}

/// What `~/.aws/config` gives, where its text could be read.
pub open spec fn config_of(config: Option<Seq<char>>) -> ConfigScan {
    match config {
        Some(c) => parse_config_spec(c),
        None => ConfigScan { profiles: Seq::empty(), sessions: Seq::empty(), section: SectionV::Skip },
    }
}

/// What `~/.aws/credentials` gives, where its text could be read.
pub open spec fn credentials_of(credentials: Option<Seq<char>>) -> Seq<ProfileV> {
    match credentials {
        Some(c) => parse_credentials_spec(c),
        None => Seq::empty(),
    }
}

/// `profiles` and `names` are what the files give: the merged profiles
/// (see `merged_profiles`) sorted by name and marked SSO-backed or not, and
/// the names of the SSO session blocks, sorted.
pub open spec fn is_snapshot(cfg: ConfigScan, creds: Seq<ProfileV>, profiles: Seq<AwsProfile>, names: Seq<Seq<char>>) -> bool {
    let m = merged_profiles(cfg.profiles, creds);
    &&& sorted_profiles(profiles_view(profiles))
    &&& forall|i: int|
        0 <= i < profiles.len() ==> m.contains_key(#[trigger] profiles[i].name@) && profiles[i].view()
            == with_sso(m[profiles[i].name@], cfg.sessions)
    &&& forall|k: Seq<char>|
        #[trigger] m.contains_key(k) ==> exists|i: int| 0 <= i < profiles.len() && profiles[i].name@ == k
    &&& sorted_names(names)
    &&& forall|k: Seq<char>|
        has_name(names, k) <==> exists|j: int| 0 <= j < cfg.sessions.len() && #[trigger] cfg.sessions[j].0 == k
}

/// The view of an optional text.
pub open spec fn opt_text(o: Option<&str>) -> Option<Seq<char>> {
    match o {
        Some(s) => Some(s@),
        None => None,
    }
}

/// The profiles and SSO sessions of the AWS files: `config` and
/// `credentials` are their texts where they could be read, the paths are
/// reported as given.
pub fn snapshot(config: Option<&str>, credentials: Option<&str>, config_path: Option<String>, credentials_path: Option<String>) -> (r: AwsConfigSnapshot)
    ensures
        opt_view(r.config_path) == opt_view(config_path),
        opt_view(r.credentials_path) == opt_view(credentials_path),
        is_snapshot(
            config_of(opt_text(config)),
            credentials_of(opt_text(credentials)),
            r.profiles@,
            crate::json::strs_view(r.sso_sessions@),
        ),
{
    let (cfg_profiles, sessions) = match config {
        Some(c) => parse_config(c),
        None => {
            let p: Vec<AwsProfile> = Vec::new();
            let s: Vec<(String, SsoSession)> = Vec::new();
            assert(profiles_view(p@) =~= Seq::<ProfileV>::empty());
            assert(sessions_view(s@) =~= Seq::<(Seq<char>, SsoV)>::empty());
            (p, s)
        },
    };
    let cred_profiles = match credentials {
        Some(c) => parse_credentials(c),
        None => {
            let p: Vec<AwsProfile> = Vec::new();
            assert(profiles_view(p@) =~= Seq::<ProfileV>::empty());
            p
        },
    };
    let profiles = merge_profiles(&cfg_profiles, &cred_profiles, &sessions);
    let names = session_names_sorted(&sessions);
    proof {
        let cfg = config_of(opt_text(config));
        assert forall|k: Seq<char>|
            has_name(crate::json::strs_view(names@), k) <==> exists|j: int|
                0 <= j < cfg.sessions.len() && #[trigger] cfg.sessions[j].0 == k by {
            if has_name(crate::json::strs_view(names@), k) {
                let j = choose|j: int| 0 <= j < sessions@.len() && #[trigger] sessions_view(sessions@)[j].0 == k;
                assert(cfg.sessions[j].0 == k);
            }
            if exists|j: int| 0 <= j < cfg.sessions.len() && #[trigger] cfg.sessions[j].0 == k {
                let j = choose|j: int| 0 <= j < cfg.sessions.len() && #[trigger] cfg.sessions[j].0 == k;
                assert(sessions_view(sessions@)[j].0 == k);
            }
        }
    }
    AwsConfigSnapshot { config_path, credentials_path, profiles, sso_sessions: names }
}

} // verus!
