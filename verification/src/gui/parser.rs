//! The desktop front end's reading of the alias file: each alias with its
//! group and sub-group (`# group: Name type: Sub`) and the flags of its command.
use vstd::prelude::*;
use crate::text::{
    is_ws, is_space, ws_end, skip_ws, occurs_at, contains_seq, chars_of, slice_vec, string_of,
    str_contains, trim, trim_chars, occurs_at_ci, matches_at_ci, lines_of, split_lines,
    eq_ignore_ascii_case, chars_eq_ignore_ascii_case, str_to_string, concat, push_str,
};
use crate::parser::{
    flag_arg, flag_rest, find_flag_arg, find_flag_rest, alias_match, match_alias_line, ssm_param,
    parse_ssm_parameters, param_value, opt_view,
};
use crate::gui::model::{Alias, AliasKind, AliasV, aliases_view};
use crate::text::{joined, join_path, first_flagged, first_flagged_of, lemma_first_flagged};

verus! {

// ─── Group lines ────────────────────────────────────────────────────────────
/// The sub-group of a `type: Sub` tail starting at `x`: the pattern
/// `\s+type\s*:\s*(.+)$` on a line (no `\n`).
pub open spec fn type_tail(s: Seq<char>, x: int) -> Option<Seq<char>> {
    let w = ws_end(s, x);
    let u = ws_end(s, w + 4);
    let v = u + 1;
    let z = ws_end(s, v);
    if !(0 <= x < s.len() && is_ws(s[x]) && occurs_at_ci(s, "type"@, w) && u < s.len() && s[u]
        == ':') {
        None
    } else if z < s.len() {
        Some(s.subrange(z, s.len() as int))
    } else if z > v {
        Some(s.subrange(s.len() - 1, s.len() as int))
    } else {
        None
    }
}

/// The lazy group name `[^,]+?` starting at `k`, tried with length `l` and
/// longer: the shortest comma-free run after which either a `type:` tail or
/// the end of the line follows.
pub open spec fn lazy_group(s: Seq<char>, k: int, l: int) -> Option<
    (Seq<char>, Option<Seq<char>>),
>
    decreases s.len() - (k + l),
{
    if l < 1 || k < 0 || k + l > s.len() || s[k + l - 1] == ',' {
        None
    } else {
        match type_tail(s, k + l) {
            Some(sub) => Some((s.subrange(k, k + l), Some(sub))),
            None => if k + l == s.len() {
                Some((s.subrange(k, k + l), None))
            } else {
                lazy_group(s, k, l + 1)
            },
        }
    }
}

/// The group text starting at `k`, or, failing that, at `k - 1`, ... down to
/// `r` (the whitespace after `group:` gives back characters one by one).
pub open spec fn group_start_back(s: Seq<char>, k: int, r: int) -> Option<
    (Seq<char>, Option<Seq<char>>),
>
    decreases k - r + 1,
{
    if k < r {
        None
    } else {
        match lazy_group(s, k, 1) {
            Some(g) => Some(g),
            None => group_start_back(s, k - 1, r),
        }
    }
}

/// The group and sub-group of a comment starting at `p`: the pattern
/// `(?i)#\s*group:\s*([^,]+?)(?:\s+type\s*:\s*(.+))?$`.
pub open spec fn gui_group_at(s: Seq<char>, p: int) -> Option<(Seq<char>, Option<Seq<char>>)> {
    let q = ws_end(s, p + 1);
    let r = q + 6;
    if 0 <= p < s.len() && s[p] == '#' && occurs_at_ci(s, "group:"@, q) {
        group_start_back(s, ws_end(s, r), r)
    } else {
        None
    }
}

/// The leftmost group comment at or after `p`.
pub open spec fn gui_group_from(s: Seq<char>, p: int) -> Option<(Seq<char>, Option<Seq<char>>)>
    decreases s.len() - p,
{
    if p < 0 || p >= s.len() {
        None
    } else {
        match gui_group_at(s, p) {
            Some(g) => Some(g),
            None => gui_group_from(s, p + 1),
        }
    }
}

fn type_tail_exec(s: &Vec<char>, x: usize) -> (r: Option<Vec<char>>)
    requires
        x <= s@.len(),
    ensures
        match r {
            Some(v) => type_tail(s@, x as int) == Some(v@),
            None => type_tail(s@, x as int) is None,
        },
{
    let n = s.len();
    if x >= n || !is_space(s[x]) {
        return None;
    }
    let kw = chars_of("type");
    proof {
        reveal_strlit("type");
    }
    assert(kw@.len() == 4);
    let w = skip_ws(s, x);
    if !matches_at_ci(s, &kw, w) {
        return None;
    }
    let u = skip_ws(s, w + 4);
    if u >= n || s[u] != ':' {
        return None;
    }
    let v = u + 1;
    let z = skip_ws(s, v);
    if z < n {
        Some(slice_vec(s, z, n))
    } else if z > v {
        Some(slice_vec(s, n - 1, n))
    } else {
        None
    }
}

fn lazy_group_exec(s: &Vec<char>, k: usize) -> (r: Option<(Vec<char>, Option<Vec<char>>)>)
    requires
        k <= s@.len(),
    ensures
        match r {
            Some((g, sub)) => lazy_group(s@, k as int, 1) == Some(
                (
                    g@,
                    match sub {
                        Some(x) => Some(x@),
                        None => None::<Seq<char>>,
                    },
                ),
            ),
            None => lazy_group(s@, k as int, 1) is None,
        },
{
    let n = s.len();
    let mut l: usize = 1;
    while l <= n - k
        invariant
            1 <= l,
            k <= n == s@.len(),
            lazy_group(s@, k as int, 1) == lazy_group(s@, k as int, l as int),
        decreases n + 1 - (k + l),
    {
        if s[k + l - 1] == ',' {
            return None;
        }
        match type_tail_exec(s, k + l) {
            Some(sub) => {
                return Some((slice_vec(s, k, k + l), Some(sub)));
            },
            None => {
                if k + l == n {
                    return Some((slice_vec(s, k, k + l), None));
                }
            },
        }
        l = l + 1;
    }
    None
}

fn group_back_exec(s: &Vec<char>, k: usize, r: usize) -> (res: Option<
    (Vec<char>, Option<Vec<char>>),
>)
    requires
        r <= k <= s@.len(),
    ensures
        match res {
            Some((g, sub)) => group_start_back(s@, k as int, r as int) == Some(
                (
                    g@,
                    match sub {
                        Some(x) => Some(x@),
                        None => None::<Seq<char>>,
                    },
                ),
            ),
            None => group_start_back(s@, k as int, r as int) is None,
        },
    decreases k - r,
{
    match lazy_group_exec(s, k) {
        Some(g) => Some(g),
        None => {
            if k == r {
                assert(group_start_back(s@, k - 1, r as int) is None);
                None
            } else {
                group_back_exec(s, k - 1, r)
            }
        },
    }
}

/// Executable `gui_group_from(s, 0)`.
pub fn match_gui_group_line(s: &Vec<char>) -> (r: Option<(Vec<char>, Option<Vec<char>>)>)
    ensures
        match r {
            Some((g, sub)) => gui_group_from(s@, 0) == Some(
                (
                    g@,
                    match sub {
                        Some(x) => Some(x@),
                        None => None::<Seq<char>>,
                    },
                ),
            ),
            None => gui_group_from(s@, 0) is None,
        },
{
    let kw = chars_of("group:");
    proof {
        reveal_strlit("group:");
    }
    let n = s.len();
    let mut p: usize = 0;
    while p < n
        invariant
            p <= s@.len(),
            n == s@.len(),
            kw@ == "group:"@,
            kw@.len() == 6,
            gui_group_from(s@, 0) == gui_group_from(s@, p as int),
        decreases n - p,
    {
        if s[p] == '#' {
            let q = skip_ws(s, p + 1);
            if matches_at_ci(s, &kw, q) {
                let r = q + 6;
                let t = skip_ws(s, r);
                match group_back_exec(s, t, r) {
                    Some(g) => {
                        return Some(g);
                    },
                    None => {},
                }
            }
        }
        p = p + 1;
    }
    None
}

// ─── Classification and flags ───────────────────────────────────────────────
/// The kind of a command: an SSO login, an SSM session, or another command.
pub open spec fn classify_spec(c: Seq<char>) -> AliasKind {
    if contains_seq(c, "aws sso login"@) {
        AliasKind::SsoLogin
    } else if contains_seq(c, "aws ssm start-session"@) {
        AliasKind::SsmSession
    } else {
        AliasKind::Other
    }
}

/// Classifies a command (see `classify_spec`).
pub fn classify(command: &str) -> (k: AliasKind)
    ensures
        k == classify_spec(command@),
{
    if str_contains(command, "aws sso login") {
        AliasKind::SsoLogin
    } else if str_contains(command, "aws ssm start-session") {
        AliasKind::SsmSession
    } else {
        AliasKind::Other
    }
}

/// End of the run of characters that are neither `"` nor whitespace.
pub open spec fn unquoted_end(s: Seq<char>, i: int) -> int
    decreases s.len() - i,
{
    if 0 <= i < s.len() && !is_ws(s[i]) && s[i] != '"' {
        unquoted_end(s, i + 1)
    } else {
        i
    }
}

/// Executable `unquoted_end`.
pub fn skip_unquoted(s: &Vec<char>, i: usize) -> (r: usize)
    requires
        i <= s@.len(),
    ensures
        r == unquoted_end(s@, i as int),
        i <= r <= s@.len(),
{
    let mut j = i;
    while j < s.len() && !is_space(s[j]) && s[j] != '"'
        invariant
            i <= j <= s@.len(),
            unquoted_end(s@, i as int) == unquoted_end(s@, j as int),
        decreases s@.len() - j,
    {
        j = j + 1;
    }
    j
}

/// The target of `--target` standing at `p`: the pattern
/// `--target\s+"?([^"\s]+)"?`.
pub open spec fn target_at(s: Seq<char>, p: int) -> Option<Seq<char>> {
    let q = p + 8;
    let a = ws_end(s, q);
    if !(occurs_at(s, "--target"@, p) && a > q && a < s.len()) {
        None
    } else if s[a] == '"' {
        if unquoted_end(s, a + 1) > a + 1 {
            Some(s.subrange(a + 1, unquoted_end(s, a + 1)))
        } else {
            None
        }
    } else if unquoted_end(s, a) > a {
        Some(s.subrange(a, unquoted_end(s, a)))
    } else {
        None
    }
}

/// The leftmost `--target` match at or after `p`.
pub open spec fn target_from(s: Seq<char>, p: int) -> Option<Seq<char>>
    decreases s.len() + 1 - p,
{
    if p < 0 || p > s.len() {
        None
    } else {
        match target_at(s, p) {
            Some(t) => Some(t),
            None => target_from(s, p + 1),
        }
    }
}

fn opt_string(v: Option<Vec<char>>) -> (r: Option<String>)
    ensures
        opt_view(r) == (match v {
            Some(x) => Some(x@),
            None => None::<Seq<char>>,
        }),
{
    match v {
        Some(x) => Some(string_of(&x)),
        None => None,
    }
}

/// The `--target` of a command (see `target_from`).
pub fn extract_target(command: &str) -> (r: Option<String>)
    ensures
        opt_view(r) == target_from(command@, 0),
{
    let s = chars_of(command);
    let f = chars_of("--target");
    proof {
        reveal_strlit("--target");
    }
    let n = s.len();
    let mut p: usize = 0;
    while p <= n
        invariant
            p <= n + 1,
            n == s@.len(),
            s@ == command@,
            f@ == "--target"@,
            f@.len() == 8,
            target_from(s@, 0) == target_from(s@, p as int),
        decreases n + 1 - p,
    {
        if crate::text::matches_at(&s, &f, p) {
            let q = p + 8;
            let a = skip_ws(&s, q);
            if a > q && a < n {
                if s[a] == '"' {
                    let b = skip_unquoted(&s, a + 1);
                    if b > a + 1 {
                        return Some(string_of(&slice_vec(&s, a + 1, b)));
                    }
                } else {
                    let b = skip_unquoted(&s, a);
                    if b > a {
                        return Some(string_of(&slice_vec(&s, a, b)));
                    }
                }
            }
        }
        if p == n {
            assert(target_from(s@, p + 1) is None);
            return None;
        }
        p = p + 1;
    }
    None
}

/// The `--profile` of a command (the regex `--profile\s+(\S+)`).
pub fn extract_profile(command: &str) -> (r: Option<String>)
    ensures
        opt_view(r) == flag_arg(command@, "--profile"@),
{
    let s = chars_of(command);
    opt_string(find_flag_arg(&s, "--profile"))
}

/// The `--region` of a command (the regex `--region\s+(\S+)`).
pub fn extract_region(command: &str) -> (r: Option<String>)
    ensures
        opt_view(r) == flag_arg(command@, "--region"@),
{
    let s = chars_of(command);
    opt_string(find_flag_arg(&s, "--region"))
}

/// The `--sso-session` of a command (the regex `--sso-session\s+(\S+)`).
pub fn extract_sso_session(command: &str) -> (r: Option<String>)
    ensures
        opt_view(r) == flag_arg(command@, "--sso-session"@),
{
    let s = chars_of(command);
    opt_string(find_flag_arg(&s, "--sso-session"))
}

/// The SSM document and `--parameters` values of a command.
pub struct SsmParams {
    pub document: Option<String>,
    pub local_port: Option<String>,
    pub remote_port: Option<String>,
    pub host: Option<String>,
}

/// A parameter of the `--parameters` of command `c`.
pub open spec fn cmd_param(c: Seq<char>, key: Seq<char>) -> Option<Seq<char>> {
    match flag_rest(c, "--parameters"@) {
        Some(p) => ssm_param(p, key),
        None => None,
    }
}

/// The SSM document (`--document-name`) and the first `localPortNumber`,
/// `portNumber` and `host` values of the `--parameters` of a command.
pub fn extract_ssm_params(command: &str) -> (r: SsmParams)
    ensures
        opt_view(r.document) == flag_arg(command@, "--document-name"@),
        opt_view(r.local_port) == cmd_param(command@, "localPortNumber"@),
        opt_view(r.remote_port) == cmd_param(command@, "portNumber"@),
        opt_view(r.host) == cmd_param(command@, "host"@),
{
    let s = chars_of(command);
    let mut out = SsmParams { document: None, local_port: None, remote_port: None, host: None };
    out.document = opt_string(find_flag_arg(&s, "--document-name"));
    match find_flag_rest(&s, "--parameters") {
        Some(p) => match parse_ssm_parameters(&p) {
            Some(obj) => {
                out.local_port = param_value(&obj, "localPortNumber");
                out.remote_port = param_value(&obj, "portNumber");
                out.host = param_value(&obj, "host");
            },
            None => {},
        },
        None => {},
    }
    out
}

// ─── The alias file ─────────────────────────────────────────────────────────
/// The alias built from an alias line's name and command in the given group.
pub open spec fn alias_of(n: Seq<char>, c: Seq<char>, group: Option<Seq<char>>, sub: Option<Seq<char>>) -> AliasV {
    let is_iam = match sub {
        Some(x) => eq_ignore_ascii_case(x, "iam"@),
        None => false,
    };
    let kind = if is_iam {
        AliasKind::IamProfile
    } else {
        classify_spec(c)
    };
    let ssm = kind == AliasKind::SsmSession;
    AliasV {
        name: n,
        command: c,
        kind,
        profile: flag_arg(c, "--profile"@),
        region: flag_arg(c, "--region"@),
        target: target_from(c, 0),
        sso_session_name: if kind == AliasKind::SsoLogin {
            flag_arg(c, "--sso-session"@)
        } else {
            None
        },
        ssm_document: if ssm {
            flag_arg(c, "--document-name"@)
        } else {
            None
        },
        ssm_local_port: if ssm {
            cmd_param(c, "localPortNumber"@)
        } else {
            None
        },
        ssm_remote_port: if ssm {
            cmd_param(c, "portNumber"@)
        } else {
            None
        },
        ssm_host: if ssm {
            cmd_param(c, "host"@)
        } else {
            None
        },
        group,
        subgroup: sub,
    }
}

/// The aliases of the lines `ls` in the current group and sub-group: blank
/// lines are skipped; a group comment sets both; other `#` lines are comments;
/// an alias line yields an alias; any other line is ignored.
pub open spec fn parse_lines(ls: Seq<Seq<char>>, group: Option<Seq<char>>, sub: Option<Seq<char>>) -> Seq<AliasV>
    decreases ls.len(),
{
    if ls.len() == 0 {
        Seq::empty()
    } else {
        let line = trim(ls[0]);
        let rest = ls.drop_first();
        if line.len() == 0 {
            parse_lines(rest, group, sub)
        } else {
            match gui_group_from(line, 0) {
                Some((g, s)) => parse_lines(
                    rest,
                    Some(trim(g)),
                    match s {
                        Some(x) => Some(trim(x)),
                        None => None,
                    },
                ),
                None => {
                    if line[0] == '#' {
                        parse_lines(rest, group, sub)
                    } else {
                        match alias_match(line) {
                            Some((n, c)) => seq![alias_of(n, c, group, sub)] + parse_lines(
                                rest,
                                group,
                                sub,
                            ),
                            None => parse_lines(rest, group, sub),
                        }
                    }
                },
            }
        }
    }
}

/// The aliases of an alias file; before any group comment there is no group.
pub open spec fn parse_spec(content: Seq<char>) -> Seq<AliasV> {
    parse_lines(lines_of(content), None, None)
}

fn opt_clone(o: &Option<String>) -> (r: Option<String>)
    ensures
        opt_view(r) == opt_view(*o),
{
    match o {
        Some(s) => Some(s.clone()),
        None => None,
    }
}

fn make_alias(n: &Vec<char>, c: &Vec<char>, group: &Option<String>, sub: &Option<String>) -> (a: Alias)
    ensures
        a.view() == alias_of(n@, c@, opt_view(*group), opt_view(*sub)),
{
    let command = string_of(c);
    let is_iam = match sub {
        Some(x) => {
            let xv = chars_of(x.as_str());
            let iam = chars_of("iam");
            chars_eq_ignore_ascii_case(&xv, &iam)
        },
        None => false,
    };
    let kind = if is_iam {
        AliasKind::IamProfile
    } else {
        classify(command.as_str())
    };
    let ssm = match kind {
        AliasKind::SsmSession => true,
        _ => false,
    };
    let params = if ssm {
        extract_ssm_params(command.as_str())
    } else {
        SsmParams { document: None, local_port: None, remote_port: None, host: None }
    };
    let sso = match kind {
        AliasKind::SsoLogin => extract_sso_session(command.as_str()),
        _ => None,
    };
    Alias {
        profile: extract_profile(command.as_str()),
        region: extract_region(command.as_str()),
        target: extract_target(command.as_str()),
        sso_session_name: sso,
        ssm_document: params.document,
        ssm_local_port: params.local_port,
        ssm_remote_port: params.remote_port,
        ssm_host: params.host,
        name: string_of(n),
        command,
        kind,
        group: opt_clone(group),
        subgroup: opt_clone(sub),
    }
}

/// Parses the text of an alias file (see `parse_spec`).
pub fn parse(content: &str) -> (r: Vec<Alias>)
    ensures
        aliases_view(r@) == parse_spec(content@),
{
    let cv = chars_of(content);
    let ls = split_lines(&cv);
    let ghost lsv = lines_of(content@);
    let mut out: Vec<Alias> = Vec::new();
    let mut group: Option<String> = None;
    let mut subgroup: Option<String> = None;
    let mut i: usize = 0;
    assert(lsv.skip(0) =~= lsv);
    assert(aliases_view(out@) + parse_lines(lsv.skip(0), opt_view(group), opt_view(subgroup))
        =~= parse_lines(lsv, None, None));
    while i < ls.len()
        invariant
            i <= ls@.len() == lsv.len(),
            lsv == lines_of(content@),
            forall|k: int| 0 <= k < ls@.len() ==> (#[trigger] ls@[k])@ == lsv[k],
            aliases_view(out@) + parse_lines(lsv.skip(i as int), opt_view(group), opt_view(subgroup))
                == parse_spec(content@),
        decreases ls@.len() - i,
    {
        let ghost before = aliases_view(out@);
        let ghost rest = lsv.skip(i + 1);
        assert(lsv.skip(i as int).drop_first() =~= rest);
        assert(lsv.skip(i as int)[0] == lsv[i as int]);
        let line = trim_chars(&ls[i]);
        if line.len() == 0 {
        } else {
            match match_gui_group_line(&line) {
                Some((g, sub)) => {
                    group = Some(string_of(&trim_chars(&g)));
                    subgroup = match sub {
                        Some(x) => Some(string_of(&trim_chars(&x))),
                        None => None,
                    };
                },
                None => {
                    if line[0] == '#' {
                    } else {
                        match match_alias_line(&line) {
                            Some((n, c)) => {
                                let a = make_alias(&n, &c, &group, &subgroup);
                                out.push(a);
                                assert(aliases_view(out@) =~= before.push(a.view()));
                                assert(aliases_view(out@) + parse_lines(
                                    rest,
                                    opt_view(group),
                                    opt_view(subgroup),
                                ) =~= before + (seq![a.view()] + parse_lines(
                                    rest,
                                    opt_view(group),
                                    opt_view(subgroup),
                                )));
                            },
                            None => {},
                        }
                    }
                },
            }
        }
        i = i + 1;
    }
    assert(lsv.skip(i as int) =~= Seq::<Seq<char>>::empty());
    assert(aliases_view(out@) + Seq::<AliasV>::empty() =~= aliases_view(out@));
    out
}


// ─── Reading the file ───────────────────────────────────────────────────────
/// The error when no alias file was found.
pub open spec fn no_file_error() -> Seq<char> {
    "No aliases file found (set AWS_TUI_ALIASES or use the file picker)"@
}

/// What reading the alias file gives: `found` is where it was found (if
/// anywhere) with what reading it gave, its text or the reading error's
/// text. No file is an error, so is a failed read (`Failed to read PATH:
/// ERROR`); otherwise the path and the file's aliases.
pub fn read_aliases(found: Option<(String, Result<String, String>)>) -> (r: Result<(String, Vec<Alias>), String>)
    ensures
        match found {
            None => r matches Err(e) && e@ == no_file_error(),
            Some((path, Err(err))) => r matches Err(e) && e@ == "Failed to read "@ + path@ + ": "@ + err@,
            Some((path, Ok(content))) => r matches Ok((p, v)) && p@ == path@ && aliases_view(v@) == parse_spec(
                content@,
            ),
        },
{
    match found {
        None => Err(str_to_string("No aliases file found (set AWS_TUI_ALIASES or use the file picker)")),
        Some((path, Err(err))) => {
            let mut e = concat("Failed to read ", path.as_str());
            push_str(&mut e, ": ");
            push_str(&mut e, err.as_str());
            Err(e)
        },
        Some((path, Ok(content))) => {
            let v = parse(content.as_str());
            Ok((path, v))
        },
    }
}


// ─── Where the alias file is ────────────────────────────────────────────────
/// The places looked at for the alias file, in order: the path given, then
/// `AWS_TUI_ALIASES`, then `.zsh_aliases`, `.bash_aliases` and `.aliases` in
/// the home directory (where there is one), then `sample_aliases` in the
/// working directory and the two above it.
pub open spec fn alias_path_candidates_of(explicit: Option<Seq<char>>, env: Option<Seq<char>>, home: Option<Seq<char>>) -> Seq<Seq<char>> {
    (match explicit {
        Some(p) => seq![p],
        None => Seq::empty(),
    }) + (match env {
        Some(p) => seq![p],
        None => Seq::empty(),
    }) + (match home {
        Some(h) => seq![joined(h, ".zsh_aliases"@), joined(h, ".bash_aliases"@), joined(h, ".aliases"@)],
        None => Seq::empty(),
    }) + seq!["sample_aliases"@, "../sample_aliases"@, "../../sample_aliases"@]
}

/// The values of a list of strings.
pub open spec fn strings_of(v: Seq<String>) -> Seq<Seq<char>> {
    Seq::new(v.len(), |i: int| v[i]@)
}

/// Writes `alias_path_candidates_of`.
pub fn alias_path_candidates(explicit: Option<String>, env: Option<String>, home: Option<String>) -> (r: Vec<String>)
    ensures
        strings_of(r@) == alias_path_candidates_of(opt_view(explicit), opt_view(env), opt_view(home)),
{
    let mut r: Vec<String> = Vec::new();
    let ghost e = opt_view(explicit);
    let ghost v = opt_view(env);
    let ghost h = opt_view(home);
    match explicit {
        Some(p) => r.push(p),
        None => {},
    }
    assert(strings_of(r@) =~= (match e { Some(p) => seq![p], None => Seq::empty() }));
    match env {
        Some(p) => r.push(p),
        None => {},
    }
    assert(strings_of(r@) =~= (match e { Some(p) => seq![p], None => Seq::empty() }) + (match v {
        Some(p) => seq![p],
        None => Seq::empty(),
    }));
    let ghost before = strings_of(r@);
    match home {
        Some(hd) => {
            r.push(join_path(hd.as_str(), ".zsh_aliases"));
            r.push(join_path(hd.as_str(), ".bash_aliases"));
            r.push(join_path(hd.as_str(), ".aliases"));
        },
        None => {},
    }
    assert(strings_of(r@) =~= before + (match h {
        Some(hh) => seq![joined(hh, ".zsh_aliases"@), joined(hh, ".bash_aliases"@), joined(hh, ".aliases"@)],
        None => Seq::empty(),
    }));
    let ghost mid = strings_of(r@);
    r.push(str_to_string("sample_aliases"));
    r.push(str_to_string("../sample_aliases"));
    r.push(str_to_string("../../sample_aliases"));
    assert(strings_of(r@) =~= mid + seq!["sample_aliases"@, "../sample_aliases"@, "../../sample_aliases"@]);
    r
}

/// The alias file: the first of the places looked at (see
/// `alias_path_candidates_of`) that is a file (`is_file` says which, in that
/// order); `None` where none is.
pub open spec fn resolved_path(explicit: Option<Seq<char>>, env: Option<Seq<char>>, home: Option<Seq<char>>, is_file: Seq<bool>) -> Option<Seq<char>> {
    let c = alias_path_candidates_of(explicit, env, home);
    match first_flagged(is_file, c.len() as int, 0) {
        Some(k) => Some(c[k]),
        None => None,
    }
}

/// Writes `resolved_path`.
pub fn resolve_path(explicit: Option<String>, env: Option<String>, home: Option<String>, is_file: &Vec<bool>) -> (r: Option<String>)
    ensures
        opt_view(r) == resolved_path(opt_view(explicit), opt_view(env), opt_view(home), is_file@),
{
    let ghost c = alias_path_candidates_of(opt_view(explicit), opt_view(env), opt_view(home));
    let cands = alias_path_candidates(explicit, env, home);
    assert(cands@.len() == c.len());
    let found = first_flagged_of(&cands, is_file);
    proof {
        lemma_first_flagged(is_file@, c.len() as int, 0);
        if let Some(k) = first_flagged(is_file@, c.len() as int, 0) {
            assert(strings_of(cands@)[k] == cands@[k]@);
        }
    }
    found
}

} // verus!
