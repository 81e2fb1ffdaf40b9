//! Shell-outs to the `aws` CLI: what the library hands them and what it makes
//! of their output (STS identity checks, credential export, tag targets).
use vstd::prelude::*;
use crate::text::{
    chars_of, string_of, slice_vec, occurs_at, matches_at, skip_ws, ws_end, str_to_string, trim,
    trim_chars, contains_seq, str_contains, lowercase, to_lower, concat, lines_of, split_lines,
    starts_with, first_char_from, find_char, chars_eq,
};
use crate::json::{JsonV, json_view, json_parse, parse_json, jfield_str, field_str_or};
use crate::gui::model::CredentialInfo;
use crate::gui::parser::{unquoted_end, extract_region, extract_profile};
use crate::parser::{flag_arg, opt_view};
use crate::json::strs_view;

verus! {

// ─── Shell quoting of `--parameters` ────────────────────────────────────────
/// `s.replace(p, r)`: every non-overlapping occurrence of `p`, from the left,
/// replaced by `r`.
pub open spec fn replace_all(s: Seq<char>, p: Seq<char>, r: Seq<char>) -> Seq<char>
    decreases s.len(),
{
    if s.len() == 0 || p.len() == 0 {
        s
    } else if occurs_at(s, p, 0) {
        r + replace_all(s.skip(p.len() as int), p, r)
    } else {
        seq![s[0]] + replace_all(s.drop_first(), p, r)
    }
}

/// The JSON object after `--parameters` standing at `p`: the pattern
/// `--parameters\s+(\{.+\})`, whose `.+` runs to the last `}` before the end
/// of the line.
pub open spec fn params_json_at(s: Seq<char>, p: int) -> Option<Seq<char>> {
    let q = p + 12;
    let a = ws_end(s, q);
    let nl = match crate::text::first_char_from(s, '\n', a + 1) {
        Some(i) => i,
        None => s.len() as int,
    };
    if occurs_at(s, "--parameters"@, p) && a > q && a < s.len() && s[a] == '{' && a + 2 <= nl {
        match crate::text::last_char(s.subrange(a + 2, nl), '}') {
            Some(j) => Some(s.subrange(a, a + 2 + j + 1)),
            None => None,
        }
    } else {
        None
    }
}

/// The leftmost `--parameters {...}` match at or after `p`.
pub open spec fn params_json_from(s: Seq<char>, p: int) -> Option<Seq<char>>
    decreases s.len() + 1 - p,
{
    if p < 0 || p > s.len() {
        None
    } else {
        match params_json_at(s, p) {
            Some(j) => Some(j),
            None => params_json_from(s, p + 1),
        }
    }
}

/// A command with its `--parameters` JSON object wrapped in single quotes
/// (every occurrence of that JSON text is wrapped); unchanged when it has none.
pub open spec fn quote_parameters_spec(c: Seq<char>) -> Seq<char> {
    match params_json_from(c, 0) {
        Some(j) => replace_all(c, j, seq!['\''] + j + seq!['\'']),
        None => c,
    }
}

fn find_params_json(s: &Vec<char>) -> (r: Option<Vec<char>>)
    ensures
        match r {
            Some(v) => params_json_from(s@, 0) == Some(v@) && v@.len() > 0,
            None => params_json_from(s@, 0) is None,
        },
{
    let f = chars_of("--parameters");
    proof {
        reveal_strlit("--parameters");
    }
    let n = s.len();
    let mut p: usize = 0;
    while p <= n
        invariant
            p <= n + 1,
            n == s@.len(),
            f@ == "--parameters"@,
            f@.len() == 12,
            params_json_from(s@, 0) == params_json_from(s@, p as int),
        decreases n + 1 - p,
    {
        if matches_at(s, &f, p) {
            let q = p + 12;
            let a = skip_ws(s, q);
            if a > q && a < n && s[a] == '{' {
                let nl = match crate::text::find_char(s, '\n', a + 1) {
                    Some(i) => i,
                    None => n,
                };
                if nl >= 2 && a <= nl - 2 {
                    let mid = slice_vec(s, a + 2, nl);
                    assert(mid@.take(mid@.len() as int) =~= mid@);
                    proof {
                        crate::text::lemma_last_char(mid@, '}');
                    }
                    match crate::text::rfind_char(&mid, '}', mid.len()) {
                        Some(j) => {
                            let v = slice_vec(s, a, a + 2 + j + 1);
                            assert(occurs_at(s@, "--parameters"@, p as int));
                            assert(a == ws_end(s@, q as int));
                            assert(nl == (match crate::text::first_char_from(s@, '\n', a + 1) {
                                Some(i) => i,
                                None => s@.len() as int,
                            }));
                            assert(crate::text::last_char(s@.subrange(a + 2, nl as int), '}') == Some(j as int));
                            assert(params_json_at(s@, p as int) == Some(v@));
                            return Some(v);
                        },
                        None => {},
                    }
                }
            }
        }
        if p == n {
            assert(params_json_from(s@, p + 1) is None);
            return None;
        }
        p = p + 1;
    }
    None
}

/// Executable `replace_all` for a non-empty pattern.
pub fn replace_all_chars(s: &Vec<char>, p: &Vec<char>, r: &Vec<char>) -> (out: Vec<char>)
    requires
        p@.len() > 0,
    ensures
        out@ == replace_all(s@, p@, r@),
{
    let mut out: Vec<char> = Vec::new();
    let mut i: usize = 0;
    let n = s.len();
    assert(s@.skip(0) =~= s@);
    assert(out@ + replace_all(s@.skip(0), p@, r@) =~= replace_all(s@, p@, r@));
    while i < n
        invariant
            i <= n == s@.len(),
            p@.len() > 0,
            out@ + replace_all(s@.skip(i as int), p@, r@) == replace_all(s@, p@, r@),
        decreases n - i,
    {
        let ghost t = s@.skip(i as int);
        if matches_at(s, p, i) {
            assert(occurs_at(t, p@, 0)) by {
                assert(t.subrange(0, p@.len() as int) =~= s@.subrange(i as int, i + p@.len()));
            }
            assert(t.skip(p@.len() as int) =~= s@.skip(i + p@.len()));
            let ghost before = out@;
            let mut k: usize = 0;
            while k < r.len()
                invariant
                    k <= r@.len(),
                    out@ == before + r@.take(k as int),
                decreases r@.len() - k,
            {
                out.push(r[k]);
                k = k + 1;
                assert(out@ =~= before + r@.take(k as int));
            }
            assert(r@.take(r@.len() as int) =~= r@);
            assert(out@ + replace_all(s@.skip(i + p@.len()), p@, r@) =~= before + (r@
                + replace_all(t.skip(p@.len() as int), p@, r@)));
            i = i + p.len();
        } else {
            assert(!occurs_at(t, p@, 0)) by {
                if occurs_at(t, p@, 0) {
                    assert(t.subrange(0, p@.len() as int) =~= s@.subrange(i as int, i + p@.len()));
                }
            }
            assert(t.drop_first() =~= s@.skip(i + 1));
            let ghost before = out@;
            out.push(s[i]);
            assert(out@ + replace_all(s@.skip(i + 1), p@, r@) =~= before + (seq![s@[i as int]]
                + replace_all(t.drop_first(), p@, r@)));
            i = i + 1;
        }
    }
    assert(s@.skip(i as int).len() == 0);
    assert(out@ + replace_all(s@.skip(i as int), p@, r@) =~= out@);
    out
}

/// Wraps the JSON value after `--parameters` in single quotes so that the
/// shell does not interpret braces, brackets or double quotes (see
/// `quote_parameters_spec`).
pub fn quote_parameters_for_shell(command: &str) -> (r: String)
    ensures
        r@ == quote_parameters_spec(command@),
{
    let c = chars_of(command);
    match find_params_json(&c) {
        Some(j) => {
            let mut q: Vec<char> = Vec::new();
            q.push('\'');
            let mut jj = j.clone();
            q.append(&mut jj);
            q.push('\'');
            assert(q@ =~= seq!['\''] + j@ + seq!['\'']);
            let out = replace_all_chars(&c, &j, &q);
            string_of(&out)
        },
        None => str_to_string(command),
    }
}


// ─── STS identity checks ────────────────────────────────────────────────────
/// The outcome of `aws sts get-caller-identity`.
pub enum StsCheckResult {
    Valid { account: String, arn: String },
    Expired { error: String },
    Error { error: String },
}

/// The value of an `StsCheckResult`.
pub enum StsV {
    Valid { account: Seq<char>, arn: Seq<char> },
    Expired { error: Seq<char> },
    Error { error: Seq<char> },
}

impl StsCheckResult {
    pub open spec fn view(&self) -> StsV {
        match self {
            StsCheckResult::Valid { account, arn } => StsV::Valid { account: account@, arn: arn@ },
            StsCheckResult::Expired { error } => StsV::Expired { error: error@ },
            StsCheckResult::Error { error } => StsV::Error { error: error@ },
        }
    }
}

/// A string member of a JSON value, or a default.
pub open spec fn str_member_or(j: JsonV, k: Seq<char>, d: Seq<char>) -> Seq<char> {
    match jfield_str(j, k) {
        Some(s) => s,
        None => d,
    }
}

/// Error text of the AWS CLI that means the credentials are no longer valid.
pub open spec fn means_expired(lower: Seq<char>) -> bool {
    ||| contains_seq(lower, "expired"@)
    ||| contains_seq(lower, "not authorized"@)
    ||| contains_seq(lower, "invalid"@)
    ||| contains_seq(lower, "the sso session"@)
    ||| contains_seq(lower, "token has expired"@)
    ||| contains_seq(lower, "refresh failed"@)
}

/// What a finished `aws sts get-caller-identity` run means: on success, the
/// account and ARN of its JSON output (`unknown` where missing), or, when the
/// output is not JSON, account `ok` and the trimmed output as ARN; on failure,
/// `Expired` where the trimmed error text, lowercased, tells of expired or
/// invalid credentials, else `Error`.
pub open spec fn sts_outcome(success: bool, stdout: Seq<char>, stderr: Seq<char>) -> StsV {
    if success {
        match json_parse(stdout) {
            Some(j) => StsV::Valid {
                account: str_member_or(j, "Account"@, "unknown"@),
                arn: str_member_or(j, "Arn"@, "unknown"@),
            },
            None => StsV::Valid { account: "ok"@, arn: trim(stdout) },
        }
    } else {
        let e = trim(stderr);
        if means_expired(lowercase(e)) {
            StsV::Expired { error: e }
        } else {
            StsV::Error { error: e }
        }
    }
}

/// Interprets a finished STS identity check (see `sts_outcome`).
pub fn classify_sts_output(success: bool, stdout: &str, stderr: &str) -> (r: StsCheckResult)
    ensures
        r.view() == sts_outcome(success, stdout@, stderr@),
{
    if success {
        match parse_json(stdout) {
            Ok(j) => StsCheckResult::Valid {
                account: field_str_or(&j, "Account", "unknown"),
                arn: field_str_or(&j, "Arn", "unknown"),
            },
            Err(_) => {
                let t = trim_chars(&chars_of(stdout));
                StsCheckResult::Valid { account: str_to_string("ok"), arn: string_of(&t) }
            },
        }
    } else {
        let e = string_of(&trim_chars(&chars_of(stderr)));
        let l = to_lower(e.as_str());
        let ls = l.as_str();
        if str_contains(ls, "expired") || str_contains(ls, "not authorized") || str_contains(
            ls,
            "invalid",
        ) || str_contains(ls, "the sso session") || str_contains(ls, "token has expired")
            || str_contains(ls, "refresh failed") {
            StsCheckResult::Expired { error: e }
        } else {
            StsCheckResult::Error { error: e }
        }
    }
}

/// The outcome when the AWS CLI could not be run at all.
pub fn sts_spawn_failed(err: &str) -> (r: StsCheckResult)
    ensures
        r.view() == (StsV::Error { error: "Failed to run aws cli: "@ + err@ }),
{
    StsCheckResult::Error { error: concat("Failed to run aws cli: ", err) }
}

// ─── Exported credentials ───────────────────────────────────────────────────
/// The value of a `CredentialInfo`.
pub struct CredentialV {
    pub access_key_id: Seq<char>,
    pub secret_access_key: Seq<char>,
    pub session_token: Seq<char>,
    pub expiration: Seq<char>,
}

impl CredentialInfo {
    pub open spec fn view(&self) -> CredentialV {
        CredentialV {
            access_key_id: self.access_key_id@,
            secret_access_key: self.secret_access_key@,
            session_token: self.session_token@,
            expiration: self.expiration@,
        }
    }
}

/// The credentials in the JSON output of `aws configure export-credentials`
/// (a missing field reads as empty); `None` when the output is not JSON.
pub open spec fn exported_credentials(stdout: Seq<char>) -> Option<CredentialV> {
    match json_parse(stdout) {
        Some(j) => Some(
            CredentialV {
                access_key_id: str_member_or(j, "AccessKeyId"@, ""@),
                secret_access_key: str_member_or(j, "SecretAccessKey"@, ""@),
                session_token: str_member_or(j, "SessionToken"@, ""@),
                expiration: str_member_or(j, "Expiration"@, ""@),
            },
        ),
        None => None,
    }
}

/// Reads the output of a successful `aws configure export-credentials` run
/// (see `exported_credentials`).
pub fn credentials_from_export(stdout: &str) -> (r: Option<CredentialInfo>)
    ensures
        match r {
            Some(c) => exported_credentials(stdout@) == Some(c.view()),
            None => exported_credentials(stdout@) is None,
        },
{
    match parse_json(stdout) {
        Ok(j) => Some(
            CredentialInfo {
                access_key_id: field_str_or(&j, "AccessKeyId", ""),
                secret_access_key: field_str_or(&j, "SecretAccessKey", ""),
                session_token: field_str_or(&j, "SessionToken", ""),
                expiration: field_str_or(&j, "Expiration", ""),
            },
        ),
        Err(_) => None,
    }
}


// ─── Reading the AWS config files ───────────────────────────────────────────
/// A trimmed line that opens a section: `[` ... `]`.
pub open spec fn is_section_line(t: Seq<char>) -> bool {
    t.len() > 0 && t[0] == '[' && t[t.len() - 1] == ']'
}

/// The text between the brackets of a section line, trimmed.
pub open spec fn section_inner(t: Seq<char>) -> Seq<char> {
    trim(t.subrange(1, t.len() - 1))
}

/// The profile a `~/.aws/config` section opens: `[profile NAME]` opens NAME
/// (trimmed), `[default]` opens `default`; other sections open none.
pub open spec fn section_profile(t: Seq<char>) -> Option<Seq<char>> {
    let inner = section_inner(t);
    if starts_with(inner, "profile "@) {
        Some(trim(inner.skip(8)))
    } else if inner == "default"@ {
        Some("default"@)
    } else {
        None
    }
}

/// A trimmed line `key = value` whose key, trimmed and lowercased, is
/// `sso_session`, and whose value, trimmed and lowercased, is `target`
/// (split at the first `=`).
pub open spec fn sso_line_matches(t: Seq<char>, target: Seq<char>) -> bool {
    match first_char_from(t, '=', 0) {
        Some(i) => lowercase(trim(t.take(i))) == "sso_session"@ && lowercase(trim(t.skip(i + 1)))
            == target,
        None => false,
    }
}

/// The first profile, reading `lines` in order with `cur` the profile of the
/// current section, that names SSO session `target`.
pub open spec fn sso_profile_scan(lines: Seq<Seq<char>>, target: Seq<char>, cur: Option<Seq<char>>) -> Option<Seq<char>>
    decreases lines.len(),
{
    if lines.len() == 0 {
        None
    } else {
        let t = trim(lines[0]);
        if is_section_line(t) {
            sso_profile_scan(lines.skip(1), target, section_profile(t))
        } else if cur is Some && sso_line_matches(t, target) {
            cur
        } else {
            sso_profile_scan(lines.skip(1), target, cur)
        }
    }
}

/// The profile of `~/.aws/config` text `content` whose `sso_session` is
/// `session_name`, compared without regard to case.
pub open spec fn profile_for_sso_session(content: Seq<char>, session_name: Seq<char>) -> Option<Seq<char>> {
    sso_profile_scan(lines_of(content), lowercase(session_name), None)
}

fn section_profile_exec(t: &Vec<char>) -> (r: Option<String>)
    requires
        is_section_line(t@),
    ensures
        opt_str(r) == section_profile(t@),
{
    let inner_raw = slice_vec(t, 1, t.len() - 1);
    let inner = trim_chars(&inner_raw);
    let pre = chars_of("profile ");
    let def = chars_of("default");
    proof {
        reveal_strlit("profile ");
        reveal_strlit("default");
    }
    if pre.len() <= inner.len() && matches_at(&inner, &pre, 0) {
        let rest = slice_vec(&inner, 8, inner.len());
        assert(rest@ =~= inner@.skip(8));
        Some(string_of(&trim_chars(&rest)))
    } else if chars_eq(&inner, &def) {
        Some(str_to_string("default"))
    } else {
        None
    }
}

/// The view of an optional string.
pub open spec fn opt_str(o: Option<String>) -> Option<Seq<char>> {
    match o {
        Some(s) => Some(s@),
        None => None,
    }
}

fn sso_line_matches_exec(t: &Vec<char>, target: &String) -> (r: bool)
    ensures
        r == sso_line_matches(t@, target@),
{
    let n = t.len();
    match find_char(t, '=', 0) {
        Some(i) => {
            let k = string_of(&trim_chars(&slice_vec(t, 0, i)));
            let v = string_of(&trim_chars(&slice_vec(t, i + 1, t.len())));
            assert(t@.subrange(0, i as int) =~= t@.take(i as int));
            assert(t@.subrange(i + 1, t@.len() as int) =~= t@.skip(i + 1));
            let kl = to_lower(k.as_str());
            let vl = to_lower(v.as_str());
            let key = chars_of(kl.as_str());
            let want = chars_of("sso_session");
            let val = chars_of(vl.as_str());
            let tv = chars_of(target.as_str());
            chars_eq(&key, &want) && chars_eq(&val, &tv)
        },
        None => false,
    }
}

/// Finds the profile of `~/.aws/config` text `content` that links SSO session
/// `session_name` (see `profile_for_sso_session`).
pub fn resolve_profile_for_sso_session(content: &str, session_name: &str) -> (r: Option<String>)
    ensures
        opt_str(r) == profile_for_sso_session(content@, session_name@),
{
    let target = to_lower(session_name);
    let lines = split_lines(&chars_of(content));
    let ghost all = lines_of(content@);
    let mut cur: Option<String> = None;
    let mut i: usize = 0;
    assert(all.skip(0) =~= all);
    while i < lines.len()
        invariant
            i <= lines@.len() == all.len(),
            all == lines_of(content@),
            target@ == lowercase(session_name@),
            forall|k: int| 0 <= k < lines@.len() ==> (#[trigger] lines@[k])@ == all[k],
            sso_profile_scan(all, target@, None) == sso_profile_scan(all.skip(i as int), target@, opt_str(cur)),
        decreases lines@.len() - i,
    {
        let t = trim_chars(&lines[i]);
        assert(all.skip(i as int)[0] == all[i as int]);
        assert(all.skip(i as int).skip(1) =~= all.skip(i + 1));
        if t.len() > 0 && t[0] == '[' && t[t.len() - 1] == ']' {
            cur = section_profile_exec(&t);
        } else {
            match &cur {
                Some(p) => {
                    if sso_line_matches_exec(&t, &target) {
                        return Some(p.clone());
                    }
                },
                None => {},
            }
        }
        i = i + 1;
    }
    None
}

/// Some line of `~/.aws/credentials` text `content`, trimmed, is exactly
/// `[NAME]`.
pub open spec fn has_profile_section(content: Seq<char>, name: Seq<char>) -> bool {
    exists|k: int|
        0 <= k < lines_of(content).len() && trim(#[trigger] lines_of(content)[k]) == seq!['['] + name
            + seq![']']
}

/// Whether `~/.aws/credentials` text `content` has a section for profile
/// `profile_name`.
pub fn iam_profile_exists_in_credentials(content: &str, profile_name: &str) -> (r: bool)
    ensures
        r == has_profile_section(content@, profile_name@),
{
    let mut target: Vec<char> = Vec::new();
    target.push('[');
    let mut nv = chars_of(profile_name);
    target.append(&mut nv);
    target.push(']');
    assert(target@ =~= seq!['['] + profile_name@ + seq![']']);
    let lines = split_lines(&chars_of(content));
    let mut i: usize = 0;
    while i < lines.len()
        invariant
            i <= lines@.len() == lines_of(content@).len(),
            target@ == seq!['['] + profile_name@ + seq![']'],
            forall|k: int| 0 <= k < lines@.len() ==> (#[trigger] lines@[k])@ == lines_of(content@)[k],
            forall|k: int| 0 <= k < i ==> trim(#[trigger] lines_of(content@)[k]) != target@,
        decreases lines@.len() - i,
    {
        let t = trim_chars(&lines[i]);
        if chars_eq(&t, &target) {
            return true;
        }
        i = i + 1;
    }
    false
}

/// The access keys read from the section `[NAME]` of `~/.aws/credentials`
/// lines: `acc` is what has been read so far (access key id, secret key) and
/// `inside` whether the current line belongs to the section. Reading stops at
/// the section after it; a later key line overrides an earlier one.
pub open spec fn iam_keys_scan(lines: Seq<Seq<char>>, section: Seq<char>, inside: bool, acc: (Seq<char>, Seq<char>)) -> (Seq<char>, Seq<char>)
    decreases lines.len(),
{
    if lines.len() == 0 {
        acc
    } else {
        let t = trim(lines[0]);
        if is_section_line(t) {
            if inside {
                acc
            } else {
                iam_keys_scan(lines.skip(1), section, t == section, acc)
            }
        } else if inside {
            match first_char_from(t, '=', 0) {
                Some(i) => {
                    let key = lowercase(trim(t.take(i)));
                    let value = trim(t.skip(i + 1));
                    if key == "aws_access_key_id"@ {
                        iam_keys_scan(lines.skip(1), section, inside, (value, acc.1))
                    } else if key == "aws_secret_access_key"@ {
                        iam_keys_scan(lines.skip(1), section, inside, (acc.0, value))
                    } else {
                        iam_keys_scan(lines.skip(1), section, inside, acc)
                    }
                },
                None => iam_keys_scan(lines.skip(1), section, inside, acc),
            }
        } else {
            iam_keys_scan(lines.skip(1), section, inside, acc)
        }
    }
}

/// The static credentials of profile NAME in `~/.aws/credentials` text: both
/// keys must be present and non-empty; token and expiration are empty.
pub open spec fn iam_credentials(content: Seq<char>, name: Seq<char>) -> Option<CredentialV> {
    let keys = iam_keys_scan(
        lines_of(content),
        seq!['['] + name + seq![']'],
        false,
        (Seq::empty(), Seq::empty()),
    );
    if keys.0.len() == 0 || keys.1.len() == 0 {
        None
    } else {
        Some(
            CredentialV {
                access_key_id: keys.0,
                secret_access_key: keys.1,
                session_token: Seq::empty(),
                expiration: Seq::empty(),
            },
        )
    }
}

/// Reads the static credentials of profile `profile_name` from
/// `~/.aws/credentials` text (see `iam_credentials`).
pub fn read_iam_credentials_from_file(content: &str, profile_name: &str) -> (r: Option<CredentialInfo>)
    ensures
        match r {
            Some(c) => iam_credentials(content@, profile_name@) == Some(c.view()),
            None => iam_credentials(content@, profile_name@) is None,
        },
{
    let mut target: Vec<char> = Vec::new();
    target.push('[');
    let mut nv = chars_of(profile_name);
    target.append(&mut nv);
    target.push(']');
    assert(target@ =~= seq!['['] + profile_name@ + seq![']']);
    let lines = split_lines(&chars_of(content));
    let ghost all = lines_of(content@);
    let mut in_section = false;
    let mut access_key = String::new();
    let mut secret_key = String::new();
    let mut i: usize = 0;
    assert(all.skip(0) =~= all);
    let ghost goal = iam_keys_scan(all, target@, false, (Seq::empty(), Seq::empty()));
    while i < lines.len()
        invariant_except_break
            goal == iam_keys_scan(all.skip(i as int), target@, in_section, (access_key@, secret_key@)),
        invariant
            i <= lines@.len() == all.len(),
            all == lines_of(content@),
            forall|k: int| 0 <= k < lines@.len() ==> (#[trigger] lines@[k])@ == all[k],
        ensures
            goal == (access_key@, secret_key@),
        decreases lines@.len() - i,
    {
        let t = trim_chars(&lines[i]);
        assert(all.skip(i as int)[0] == all[i as int]);
        assert(all.skip(i as int).skip(1) =~= all.skip(i + 1));
        if t.len() > 0 && t[0] == '[' && t[t.len() - 1] == ']' {
            if in_section {
                break;
            }
            in_section = chars_eq(&t, &target);
        } else if in_section {
            match find_char(&t, '=', 0) {
                Some(p) => {
                    let k = string_of(&trim_chars(&slice_vec(&t, 0, p)));
                    assert(t@.subrange(0, p as int) =~= t@.take(p as int));
                    assert(t@.subrange(p + 1, t@.len() as int) =~= t@.skip(p + 1));
                    let kl = to_lower(k.as_str());
                    let key = chars_of(kl.as_str());
                    let id = chars_of("aws_access_key_id");
                    let secret = chars_of("aws_secret_access_key");
                    if chars_eq(&key, &id) {
                        access_key = string_of(&trim_chars(&slice_vec(&t, p + 1, t.len())));
                    } else if chars_eq(&key, &secret) {
                        secret_key = string_of(&trim_chars(&slice_vec(&t, p + 1, t.len())));
                    }
                },
                None => {},
            }
        }
        i = i + 1;
    }
    if chars_of(access_key.as_str()).len() == 0 || chars_of(secret_key.as_str()).len() == 0 {
        None
    } else {
        Some(
            CredentialInfo {
                access_key_id: access_key,
                secret_access_key: secret_key,
                session_token: String::new(),
                expiration: String::new(),
            },
        )
    }
}


// ─── Tag targets ────────────────────────────────────────────────────────────
/// The `--target "tag:..."` standing at `p`: the pattern
/// `--target\s+"?(tag:[^"\s]+)"?`, as its end and its tag text.
pub open spec fn tag_at(s: Seq<char>, p: int) -> Option<(int, Seq<char>)> {
    let q = p + 8;
    let a = ws_end(s, q);
    let b = if a < s.len() && s[a] == '"' {
        a + 1
    } else {
        a
    };
    let c = unquoted_end(s, b + 4);
    let e = if c < s.len() && s[c] == '"' {
        c + 1
    } else {
        c
    };
    if occurs_at(s, "--target"@, p) && a > q && occurs_at(s, "tag:"@, b) && c > b + 4 {
        Some((e, s.subrange(b, c)))
    } else {
        None
    }
}

/// The leftmost tag target at or after `p`, as its start, end and tag text.
pub open spec fn tag_from(s: Seq<char>, p: int) -> Option<(int, int, Seq<char>)>
    decreases s.len() + 1 - p,
{
    if p < 0 || p > s.len() {
        None
    } else {
        match tag_at(s, p) {
            Some((e, t)) => Some((p, e, t)),
            None => tag_from(s, p + 1),
        }
    }
}

/// The pieces of the first `n` characters of `s` between the separators
/// `c` (`str::split`): always at least one, possibly empty.
pub open spec fn split_prefix(s: Seq<char>, c: char, n: int) -> Seq<Seq<char>>
    decreases n,
{
    if n <= 0 {
        seq![Seq::empty()]
    } else {
        let r = split_prefix(s, c, n - 1);
        if s[n - 1] == c {
            r.push(Seq::empty())
        } else {
            r.update(r.len() - 1, r.last().push(s[n - 1]))
        }
    }
}

/// The pieces of `s` between the separators `c` (`str::split`).
pub open spec fn split_at_char(s: Seq<char>, c: char) -> Seq<Seq<char>> {
    split_prefix(s, c, s.len() as int)
}

proof fn lemma_split_prefix_len(s: Seq<char>, c: char, n: int)
    ensures
        split_prefix(s, c, n).len() >= 1,
    decreases n,
{
    if n > 0 {
        lemma_split_prefix_len(s, c, n - 1);
    }
}

/// The `key=value` pairs of `tag:K1=V1,K2=V2,...` (each trimmed; a piece
/// without `=` is left out).
pub open spec fn tag_pairs(pieces: Seq<Seq<char>>) -> Seq<(Seq<char>, Seq<char>)>
    decreases pieces.len(),
{
    if pieces.len() == 0 {
        Seq::empty()
    } else {
        let rest = tag_pairs(pieces.drop_last());
        let piece = pieces.last();
        match first_char_from(piece, '=', 0) {
            Some(i) => rest.push((trim(piece.take(i)), trim(piece.skip(i + 1)))),
            None => rest,
        }
    }
}

/// The JMESPath filters that select instances carrying every tag.
pub open spec fn tag_filters(pairs: Seq<(Seq<char>, Seq<char>)>) -> Seq<char>
    decreases pairs.len(),
{
    if pairs.len() == 0 {
        Seq::empty()
    } else {
        tag_filters(pairs.drop_last()) + "[?Tags[?Key=='"@ + pairs.last().0 + "' && Value=='"@
            + pairs.last().1 + "']]"@
    }
}

/// What resolving a tag target asks for.
pub enum TagPlan {
    /// The command has no tag target and stays as it is.
    NoTag,
    /// The tag target names no `key=value` pair.
    Invalid(String),
    /// Look the instance up with these `aws` arguments, then put its id in
    /// place of `full_match`.
    Lookup { full_match: String, tag_spec: String, args: Vec<String> },
}

/// The arguments of the lookup of the first running instance with all of
/// `pairs`, in the region and profile of `command`.
pub open spec fn lookup_args(command: Seq<char>, pairs: Seq<(Seq<char>, Seq<char>)>) -> Seq<Seq<char>> {
    seq![
        "ec2"@,
        "describe-instances"@,
        "--filters"@,
        "Name=instance-state-name,Values=running"@,
        "--query"@,
        "Reservations[].Instances"@ + tag_filters(pairs) + " | [] | [0].InstanceId"@,
        "--output"@,
        "text"@,
    ] + (match flag_arg(command, "--region"@) {
        Some(r) => seq!["--region"@, r],
        None => Seq::empty(),
    }) + (match flag_arg(command, "--profile"@) {
        Some(p) => seq!["--profile"@, p],
        None => Seq::empty(),
    })
}

/// Where the tag target of `command` leads (see `TagPlan`).
pub open spec fn tag_plan_ok(command: Seq<char>, plan: TagPlan) -> bool {
    match tag_from(command, 0) {
        None => plan is NoTag,
        Some((p, e, spec)) => {
            let pairs = tag_pairs(split_at_char(spec.skip(4), ','));
            if pairs.len() == 0 {
                plan matches TagPlan::Invalid(m) && m@ == "No valid tag key=value pairs in "@ + spec
            } else {
                plan matches TagPlan::Lookup { full_match, tag_spec, args } && full_match@
                    == command.subrange(p, e) && tag_spec@ == spec && strs_view(args@) == lookup_args(
                    command,
                    pairs,
                )
            }
        },
    }
}

fn find_tag(s: &Vec<char>) -> (r: Option<(usize, usize, usize, usize)>)
    ensures
        match r {
            Some((p, b, c, e)) => tag_from(s@, 0) == Some((p as int, e as int, s@.subrange(b as int, c as int)))
                && p <= b && b + 4 < c <= e <= s@.len(),
            None => tag_from(s@, 0) is None,
        },
{
    let f = chars_of("--target");
    let tg = chars_of("tag:");
    proof {
        reveal_strlit("--target");
        reveal_strlit("tag:");
    }
    let n = s.len();
    let mut p: usize = 0;
    while p <= n
        invariant
            p <= n + 1,
            n == s@.len(),
            f@ == "--target"@,
            tg@ == "tag:"@,
            f@.len() == 8,
            tg@.len() == 4,
            tag_from(s@, 0) == tag_from(s@, p as int),
        decreases n + 1 - p,
    {
        if matches_at(s, &f, p) {
            let q = p + 8;
            let a = skip_ws(s, q);
            if a > q {
                let b = if a < n && s[a] == '"' {
                    a + 1
                } else {
                    a
                };
                if b < n && n - b >= 4 && matches_at(s, &tg, b) {
                    let c = crate::gui::parser::skip_unquoted(s, b + 4);
                    if c > b + 4 {
                        let e = if c < n && s[c] == '"' {
                            c + 1
                        } else {
                            c
                        };
                        return Some((p, b, c, e));
                    }
                }
            }
        }
        if p == n {
            assert(tag_from(s@, p + 1) is None);
            return None;
        }
        p = p + 1;
    }
    None
}


/// Executable `split_at_char`.
pub fn split_chars(s: &Vec<char>, c: char) -> (r: Vec<Vec<char>>)
    ensures
        r@.len() == split_at_char(s@, c).len(),
        forall|k: int| 0 <= k < r@.len() ==> (#[trigger] r@[k])@ == split_at_char(s@, c)[k],
{
    let mut r: Vec<Vec<char>> = Vec::new();
    let mut cur: Vec<char> = Vec::new();
    let mut i: usize = 0;
    while i < s.len()
        invariant
            i <= s@.len(),
            r@.len() + 1 == split_prefix(s@, c, i as int).len(),
            forall|k: int| 0 <= k < r@.len() ==> (#[trigger] r@[k])@ == split_prefix(s@, c, i as int)[k],
            cur@ == split_prefix(s@, c, i as int).last(),
        decreases s@.len() - i,
    {
        proof {
            lemma_split_prefix_len(s@, c, i as int);
        }
        if s[i] == c {
            let done = cur;
            r.push(done);
            cur = Vec::new();
        } else {
            cur.push(s[i]);
        }
        i = i + 1;
    }
    proof {
        lemma_split_prefix_len(s@, c, i as int);
    }
    r.push(cur);
    r
}

pub(crate) fn tag_pairs_exec(pieces: &Vec<Vec<char>>) -> (r: Vec<(Vec<char>, Vec<char>)>)
    ensures
        Seq::new(r@.len(), |k: int| (r@[k].0@, r@[k].1@)) == tag_pairs(
            Seq::new(pieces@.len(), |k: int| pieces@[k]@),
        ),
{
    let ghost ps = Seq::new(pieces@.len(), |k: int| pieces@[k]@);
    let mut r: Vec<(Vec<char>, Vec<char>)> = Vec::new();
    let mut i: usize = 0;
    while i < pieces.len()
        invariant
            i <= pieces@.len(),
            ps == Seq::new(pieces@.len(), |k: int| pieces@[k]@),
            Seq::new(r@.len(), |k: int| (r@[k].0@, r@[k].1@)) == tag_pairs(ps.take(i as int)),
        decreases pieces@.len() - i,
    {
        assert(ps.take(i + 1).drop_last() =~= ps.take(i as int));
        assert(ps.take(i + 1).last() == pieces@[i as int]@);
        let piece = &pieces[i];
        let ghost before = Seq::new(r@.len(), |k: int| (r@[k].0@, r@[k].1@));
        match find_char(piece, '=', 0) {
            Some(e) => {
                let n = piece.len();
                let k = trim_chars(&slice_vec(piece, 0, e));
                let v = trim_chars(&slice_vec(piece, e + 1, n));
                assert(piece@.subrange(0, e as int) =~= piece@.take(e as int));
                assert(piece@.subrange(e + 1, piece@.len() as int) =~= piece@.skip(e + 1));
                let ghost kv = k@;
                let ghost vv = v@;
                r.push((k, v));
                assert(Seq::new(r@.len(), |k: int| (r@[k].0@, r@[k].1@)) =~= before.push((kv, vv)));
            },
            None => {},
        }
        i = i + 1;
    }
    assert(ps.take(i as int) =~= ps);
    r
}

fn tag_filters_exec(pairs: &Vec<(Vec<char>, Vec<char>)>) -> (r: String)
    ensures
        r@ == tag_filters(Seq::new(pairs@.len(), |k: int| (pairs@[k].0@, pairs@[k].1@))),
{
    let ghost ps = Seq::new(pairs@.len(), |k: int| (pairs@[k].0@, pairs@[k].1@));
    let mut r = String::new();
    let mut i: usize = 0;
    while i < pairs.len()
        invariant
            i <= pairs@.len(),
            ps == Seq::new(pairs@.len(), |k: int| (pairs@[k].0@, pairs@[k].1@)),
            r@ == tag_filters(ps.take(i as int)),
        decreases pairs@.len() - i,
    {
        assert(ps.take(i + 1).drop_last() =~= ps.take(i as int));
        assert(ps.take(i + 1).last() == (pairs@[i as int].0@, pairs@[i as int].1@));
        crate::text::push_str(&mut r, "[?Tags[?Key=='");
        crate::text::push_str(&mut r, string_of(&pairs[i].0).as_str());
        crate::text::push_str(&mut r, "' && Value=='");
        crate::text::push_str(&mut r, string_of(&pairs[i].1).as_str());
        crate::text::push_str(&mut r, "']]");
        i = i + 1;
    }
    assert(ps.take(i as int) =~= ps);
    r
}

fn push_arg(v: &mut Vec<String>, a: String)
    ensures
        strs_view(final(v)@) == strs_view(old(v)@).push(a@),
{
    let ghost before = strs_view(v@);
    let ghost av = a@;
    v.push(a);
    assert(strs_view(v@) =~= before.push(av));
}

/// Plans the resolution of a `--target tag:K=V,...` in a command (see
/// `tag_plan_ok`).
pub fn tag_target_plan(command: &str) -> (r: TagPlan)
    ensures
        tag_plan_ok(command@, r),
{
    let s = chars_of(command);
    let (p, b, c, e) = match find_tag(&s) {
        Some(pe) => pe,
        None => return TagPlan::NoTag,
    };
    let ghost spec_t = s@.subrange(b as int, c as int);
    let full = slice_vec(&s, p, e);
    let spec_v = slice_vec(&s, b, c);
    let tag_part = slice_vec(&spec_v, 4, spec_v.len());
    assert(tag_part@ =~= spec_t.skip(4));
    let pieces = split_chars(&tag_part, ',');
    assert(Seq::new(pieces@.len(), |k: int| pieces@[k]@) =~= split_at_char(spec_t.skip(4), ','));
    let pairs = tag_pairs_exec(&pieces);
    let tag_spec = string_of(&spec_v);
    if pairs.len() == 0 {
        return TagPlan::Invalid(concat("No valid tag key=value pairs in ", tag_spec.as_str()));
    }
    let filters = tag_filters_exec(&pairs);
    let mut query = concat("Reservations[].Instances", filters.as_str());
    crate::text::push_str(&mut query, " | [] | [0].InstanceId");
    let mut args: Vec<String> = Vec::new();
    push_arg(&mut args, str_to_string("ec2"));
    push_arg(&mut args, str_to_string("describe-instances"));
    push_arg(&mut args, str_to_string("--filters"));
    push_arg(&mut args, str_to_string("Name=instance-state-name,Values=running"));
    push_arg(&mut args, str_to_string("--query"));
    push_arg(&mut args, query);
    push_arg(&mut args, str_to_string("--output"));
    push_arg(&mut args, str_to_string("text"));
    let ghost a0 = strs_view(args@);
    match extract_region(command) {
        Some(r) => {
            push_arg(&mut args, str_to_string("--region"));
            push_arg(&mut args, r);
        },
        None => {},
    }
    let ghost a1 = strs_view(args@);
    assert(a1 =~= a0 + (match flag_arg(command@, "--region"@) {
        Some(r) => seq!["--region"@, r],
        None => Seq::<Seq<char>>::empty(),
    }));
    match extract_profile(command) {
        Some(pr) => {
            push_arg(&mut args, str_to_string("--profile"));
            push_arg(&mut args, pr);
        },
        None => {},
    }
    assert(strs_view(args@) =~= a1 + (match flag_arg(command@, "--profile"@) {
        Some(p) => seq!["--profile"@, p],
        None => Seq::<Seq<char>>::empty(),
    }));
    let ghost pairs_v = tag_pairs(split_at_char(spec_t.skip(4), ','));
    assert(Seq::new(pairs@.len(), |k: int| (pairs@[k].0@, pairs@[k].1@)) == pairs_v);
    assert(full@ == command@.subrange(p as int, e as int));
    assert(tag_spec@ == spec_t);
    assert(strs_view(args@) == lookup_args(command@, pairs_v));
    TagPlan::Lookup { full_match: string_of(&full), tag_spec, args }
}

/// The command once the lookup ran: its trimmed error output on failure;
/// no instance where the trimmed output is empty or `None`; otherwise the
/// command with every copy of `full_match` replaced by `--target ID`.
pub open spec fn tag_outcome(command: Seq<char>, full_match: Seq<char>, tag_spec: Seq<char>, success: bool, stdout: Seq<char>, stderr: Seq<char>) -> Result<Seq<char>, Seq<char>> {
    let id = trim(stdout);
    if !success {
        Err("EC2 describe-instances failed: "@ + trim(stderr))
    } else if id.len() == 0 || id == "None"@ {
        Err("No running instance matched "@ + tag_spec)
    } else {
        Ok(replace_all(command, full_match, "--target "@ + id))
    }
}

/// Finishes a tag target lookup (see `tag_outcome`).
pub fn finish_tag_target(command: &str, full_match: &str, tag_spec: &str, success: bool, stdout: &str, stderr: &str) -> (r: Result<String, String>)
    requires
        full_match@.len() > 0,
    ensures
        match (r, tag_outcome(command@, full_match@, tag_spec@, success, stdout@, stderr@)) {
            (Ok(a), Ok(b)) => a@ == b,
            (Err(a), Err(b)) => a@ == b,
            _ => false,
        },
{
    if !success {
        let e = string_of(&trim_chars(&chars_of(stderr)));
        return Err(concat("EC2 describe-instances failed: ", e.as_str()));
    }
    let id = trim_chars(&chars_of(stdout));
    let none = chars_of("None");
    if id.len() == 0 || chars_eq(&id, &none) {
        return Err(concat("No running instance matched ", tag_spec));
    }
    let mut rep = chars_of("--target ");
    let mut idc = id.clone();
    let ghost rv = rep@;
    rep.append(&mut idc);
    assert(rep@ =~= rv + id@);
    let out = replace_all_chars(&chars_of(command), &chars_of(full_match), &rep);
    Ok(string_of(&out))
}

/// The error when the instance lookup could not be run.
pub fn ec2_lookup_error(err: &str) -> (r: String)
    ensures
        r@ == "EC2 lookup failed: "@ + err@,
{
    concat("EC2 lookup failed: ", err)
}

} // verus!
